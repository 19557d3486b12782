//! The 68000 CPU state and instruction stepping.

pub use crate::bus::ADDR_MASK;
use crate::bus::{Access, Bus};
use crate::decode::Decoder;
use vstd::prelude::*;

verus! {

broadcast use crate::bus::lemma_masked_address;

/// Status register bit positions.
pub const SR_C: u16 = 1;

pub const SR_V: u16 = 2;

pub const SR_Z: u16 = 4;

pub const SR_N: u16 = 8;

pub const SR_X: u16 = 16;

pub const SR_S: u16 = 0x2000;

pub const SR_T: u16 = 0x8000;

/// Bits of the SR that physically exist on a 68000. Writes to other bits are dropped.
pub const SR_MASK: u16 = 0xA71F;

/// The CPU state.
///
/// `a[7]` is the *active* stack pointer and the only authoritative copy of it;
/// the inactive pointer is valid in its slot (`usp` or `ssp`), and the slot of
/// the active one may be stale.
#[derive(Clone, PartialEq, Eq, Debug, Default)]
pub struct M68k {
    pub d: [u32; 8],
    pub a: [u32; 8],
    /// Always 4 bytes beyond the instruction word currently executing, because
    /// of the two-word prefetch queue.
    pub pc: u32,
    pub sr: u16,
    pub usp: u32,
    pub ssp: u32,
    /// Two-word prefetch queue: `prefetch[0]` is the instruction word being
    /// executed, `prefetch[1]` the next word already fetched.
    pub prefetch: [u16; 2],
    /// Set by a double bus fault. The CPU is dead until reset.
    pub halted: bool,
    /// Set by STOP, cleared by an interrupt or a trace.
    pub stopped: bool,
    /// Pending interrupt priority level, 0 = none.
    pub pending_irq: u8,
    /// True while an exception is being entered; a fault in that window halts.
    pub in_exception: bool,
    /// T was set when the last instruction began, so a trace is owed at the
    /// next instruction boundary.
    pub trace_pending: bool,
}

/// The state with `sr` replaced by `val` the way `set_sr` does it: when the S
/// bit changes, the outgoing `a[7]` is saved into its slot and the other loaded.
pub open spec fn set_sr_spec(cpu: M68k, val: u16) -> M68k {
    let was = cpu.sr & SR_S != 0;
    let now = val & SR_S != 0;
    if was == now {
        M68k { sr: val & SR_MASK, ..cpu }
    } else if was {
        M68k { sr: val & SR_MASK, ssp: cpu.a[7], a: vstd::array::spec_array_update(cpu.a, 7, cpu.usp), ..cpu }
    } else {
        M68k { sr: val & SR_MASK, usp: cpu.a[7], a: vstd::array::spec_array_update(cpu.a, 7, cpu.ssp), ..cpu }
    }
}

/// The SR with its five condition-code bits replaced.
pub open spec fn ccr_bits(sr: u16, x: bool, n: bool, z: bool, v: bool, c: bool) -> u16 {
    (sr & 0xFFE0) | (if x { SR_X } else { 0 }) | (if n { SR_N } else { 0 }) | (if z { SR_Z } else { 0 })
        | (if v { SR_V } else { 0 }) | (if c { SR_C } else { 0 })
}

/// `cpu` with data register `i` replaced.
pub open spec fn with_d(cpu: M68k, i: int, v: u32) -> M68k {
    M68k { d: vstd::array::spec_array_update(cpu.d, i, v), ..cpu }
}

/// `cpu` with address register `i` replaced.
pub open spec fn with_a(cpu: M68k, i: int, v: u32) -> M68k {
    M68k { a: vstd::array::spec_array_update(cpu.a, i, v), ..cpu }
}

/// `cpu` with its five condition codes replaced.
pub open spec fn with_ccr(cpu: M68k, x: bool, n: bool, z: bool, v: bool, c: bool) -> M68k {
    M68k { sr: ccr_bits(cpu.sr, x, n, z, v, c), ..cpu }
}

/// `old` with its low `size` bits replaced by those of `r`.
pub open spec fn low_set(old: u32, r: u32, size: crate::ea::Size) -> u32 {
    (old & !size.spec_mask()) | (r & size.spec_mask())
}

/// Everything but the PC and the prefetch queue is the same in `x` and `y`.
pub open spec fn same_regs(x: M68k, y: M68k) -> bool {
    &&& x.d == y.d && x.a == y.a && x.sr == y.sr && x.usp == y.usp && x.ssp == y.ssp
    &&& x.halted == y.halted && x.stopped == y.stopped && x.pending_irq == y.pending_irq
    &&& x.in_exception == y.in_exception && x.trace_pending == y.trace_pending
}

/// `cpu` as an instruction starts: a trace is owed after it exactly when T
/// is set.
pub open spec fn trace_latched(cpu: M68k) -> M68k {
    M68k { trace_pending: cpu.sr & SR_T != 0, ..cpu }
}

/// `y` is `x` after one pipeline advance: slot 1 moved to slot 0, a new word in
/// slot 1, PC two bytes further on.
pub open spec fn advanced(x: M68k, y: M68k) -> bool {
    &&& same_regs(x, y)
    &&& y.prefetch[0] == x.prefetch[1]
    &&& y.pc == x.pc.wrapping_add(2)
}

/// `y` is `x` after a queue refill: both slots reloaded from the old PC and PC
/// four bytes further on.
pub open spec fn refilled(x: M68k, y: M68k) -> bool {
    &&& same_regs(x, y)
    &&& y.pc == x.pc.wrapping_add(4)
}

/// The two reads of a queue refill from `pc`: the words at `pc` and `pc + 2`
/// (masked to 24 bits), which land in the queue as `w0` and `w1`.
pub open spec fn refill_accesses(pc: u32, w0: u16, w1: u16) -> Seq<Access> {
    seq![
        Access::Read16 { addr: pc & ADDR_MASK, val: w0 },
        Access::Read16 { addr: pc.wrapping_add(2) & ADDR_MASK, val: w1 },
    ]
}

/// What a reset reads, from the bus record before it (`log0`) and after it
/// (`log1`), and the CPU it leaves (`new`): the supervisor stack pointer from
/// the words at 0 and 2 (`sh`, `sl`), the PC from the words at 4 and 6 (`ph`,
/// `pl`), then the queue refilled from that PC.
pub open spec fn reset_reads(log0: Seq<Access>, log1: Seq<Access>, new: M68k, sh: u16, sl: u16, ph: u16, pl: u16) -> bool {
    let pc = ((ph as u32) << 16u32) | pl as u32;
    &&& log1 == log0 + seq![
        Access::Read16 { addr: 0, val: sh },
        Access::Read16 { addr: 2, val: sl },
        Access::Read16 { addr: 4, val: ph },
        Access::Read16 { addr: 6, val: pl },
    ] + refill_accesses(pc, new.prefetch[0], new.prefetch[1])
    &&& new.ssp == ((sh as u32) << 16u32) | sl as u32
    &&& new.a[7] == new.ssp
    &&& new.pc == pc.wrapping_add(4)
}

impl M68k {
    pub fn new() -> (cpu: Self)
        ensures
            cpu.d@ == seq![0u32; 8],
            cpu.a@ == seq![0u32; 8],
            cpu.pc == 0 && cpu.sr == 0 && cpu.usp == 0 && cpu.ssp == 0,
            cpu.prefetch@ == seq![0u16; 2],
            !cpu.halted && !cpu.stopped && cpu.pending_irq == 0 && !cpu.in_exception && !cpu.trace_pending,
    {
        let cpu = M68k {
            d: [0, 0, 0, 0, 0, 0, 0, 0],
            a: [0, 0, 0, 0, 0, 0, 0, 0],
            pc: 0,
            sr: 0,
            usp: 0,
            ssp: 0,
            prefetch: [0, 0],
            halted: false,
            stopped: false,
            pending_irq: 0,
            in_exception: false,
            trace_pending: false,
        };
        assert(cpu.d@ =~= seq![0u32; 8]);
        assert(cpu.a@ =~= seq![0u32; 8]);
        assert(cpu.prefetch@ =~= seq![0u16; 2]);
        cpu
    }

    pub open spec fn spec_sr_s(&self) -> bool {
        self.sr & SR_S != 0
    }

    /// True in supervisor mode.
    #[verifier::when_used_as_spec(spec_sr_s)]
    pub fn sr_s(&self) -> (r: bool)
        ensures
            r == self.spec_sr_s(),
    {
        self.sr & SR_S != 0
    }

    /// Writes the SR, swapping stack pointers if the S bit changes.
    pub fn set_sr(&mut self, val: u16)
        ensures
            *final(self) == set_sr_spec(*old(self), val),
    {
        let was_super = self.sr_s();
        let now_super = val & SR_S != 0;
        if was_super != now_super {
            if was_super {
                self.ssp = self.a[7];
                self.a[7] = self.usp;
            } else {
                self.usp = self.a[7];
                self.a[7] = self.ssp;
            }
        }
        self.sr = val & SR_MASK;
    }

    pub open spec fn spec_ccr_x(&self) -> bool {
        self.sr & SR_X != 0
    }

    pub open spec fn spec_ccr_n(&self) -> bool {
        self.sr & SR_N != 0
    }

    pub open spec fn spec_ccr_z(&self) -> bool {
        self.sr & SR_Z != 0
    }

    pub open spec fn spec_ccr_v(&self) -> bool {
        self.sr & SR_V != 0
    }

    pub open spec fn spec_ccr_c(&self) -> bool {
        self.sr & SR_C != 0
    }

    #[verifier::when_used_as_spec(spec_ccr_x)]
    pub fn ccr_x(&self) -> (r: bool)
        ensures
            r == self.spec_ccr_x(),
    {
        self.sr & SR_X != 0
    }

    #[verifier::when_used_as_spec(spec_ccr_n)]
    pub fn ccr_n(&self) -> (r: bool)
        ensures
            r == self.spec_ccr_n(),
    {
        self.sr & SR_N != 0
    }

    #[verifier::when_used_as_spec(spec_ccr_z)]
    pub fn ccr_z(&self) -> (r: bool)
        ensures
            r == self.spec_ccr_z(),
    {
        self.sr & SR_Z != 0
    }

    #[verifier::when_used_as_spec(spec_ccr_v)]
    pub fn ccr_v(&self) -> (r: bool)
        ensures
            r == self.spec_ccr_v(),
    {
        self.sr & SR_V != 0
    }

    #[verifier::when_used_as_spec(spec_ccr_c)]
    pub fn ccr_c(&self) -> (r: bool)
        ensures
            r == self.spec_ccr_c(),
    {
        self.sr & SR_C != 0
    }

    /// Replaces the five condition codes, leaving the rest of the SR alone.
    pub fn set_ccr(&mut self, x: bool, n: bool, z: bool, v: bool, c: bool)
        ensures
            *final(self) == (M68k { sr: ccr_bits(old(self).sr, x, n, z, v, c), ..*old(self) }),
            final(self).ccr_x() == x,
            final(self).ccr_n() == n,
            final(self).ccr_z() == z,
            final(self).ccr_v() == v,
            final(self).ccr_c() == c,
            final(self).sr & 0xFFE0 == old(self).sr & 0xFFE0,
    {
        let xb: u16 = if x { SR_X } else { 0 };
        let nb: u16 = if n { SR_N } else { 0 };
        let zb: u16 = if z { SR_Z } else { 0 };
        let vb: u16 = if v { SR_V } else { 0 };
        let cb: u16 = if c { SR_C } else { 0 };
        self.sr = (self.sr & 0xFFE0) | xb | nb | zb | vb | cb;
        proof {
            lemma_ccr_bits(old(self).sr, x, n, z, v, c);
        }
    }

    /// Advances the pipeline by one word: slot 1 moves to slot 0, the word at PC
    /// is read into slot 1, and PC advances by 2.
    pub fn consume_opcode<B: Bus>(&mut self, bus: &mut B)
        ensures
            advanced(*old(self), *final(self)),
            final(bus).log() == old(bus).log().push(Access::Read16 { addr: old(self).pc & ADDR_MASK, val: final(self).prefetch[1] }),
    {
        self.prefetch[0] = self.prefetch[1];
        let w = bus.read16(self.pc & ADDR_MASK);
        self.prefetch[1] = w;
        self.pc = self.pc.wrapping_add(2);
    }

    /// Consumes the next word from the prefetch queue, refilling from PC.
    pub fn fetch_word<B: Bus>(&mut self, bus: &mut B) -> (r: u16)
        ensures
            r == old(self).prefetch[0],
            advanced(*old(self), *final(self)),
            final(bus).log() == old(bus).log().push(Access::Read16 { addr: old(self).pc & ADDR_MASK, val: final(self).prefetch[1] }),
    {
        let r = self.prefetch[0];
        self.consume_opcode(bus);
        r
    }

    /// Consumes two words from the queue as one long, high word first.
    pub fn fetch_long<B: Bus>(&mut self, bus: &mut B) -> (r: u32)
        ensures
            r == ((old(self).prefetch[0] as u32) << 16u32) | (old(self).prefetch[1] as u32),
            same_regs(*old(self), *final(self)),
            final(self).pc == old(self).pc.wrapping_add(2).wrapping_add(2),
    {
        let hi = self.fetch_word(bus) as u32;
        let lo = self.fetch_word(bus) as u32;
        (hi << 16) | lo
    }

    /// Refills both queue slots from PC, as after a jump, and advances PC by 4.
    pub fn refill_prefetch<B: Bus>(&mut self, bus: &mut B)
        ensures
            refilled(*old(self), *final(self)),
            final(bus).log() == old(bus).log() + refill_accesses(old(self).pc, final(self).prefetch[0], final(self).prefetch[1]),
    {
        let w0 = bus.read16(self.pc & ADDR_MASK);
        let w1 = bus.read16(self.pc.wrapping_add(2) & ADDR_MASK);
        self.prefetch[0] = w0;
        self.prefetch[1] = w1;
        self.pc = self.pc.wrapping_add(4);
    }

    /// Fills the prefetch queue from the current PC, for drivers that set PC directly.
    pub fn prime_prefetch<B: Bus>(&mut self, bus: &mut B)
        ensures
            refilled(*old(self), *final(self)),
            final(bus).log() == old(bus).log() + refill_accesses(old(self).pc, final(self).prefetch[0], final(self).prefetch[1]),
    {
        self.refill_prefetch(bus);
    }

    /// Performs a CPU reset: supervisor mode, SSP and PC from vectors 0 and 1.
    pub fn reset<B: Bus>(&mut self, bus: &mut B)
        ensures
            exists|sh: u16, sl: u16, ph: u16, pl: u16| #[trigger] reset_reads(old(bus).log(), final(bus).log(), *final(self), sh, sl, ph, pl),
            final(self).sr == SR_S,
            final(self).ssp == final(self).a[7],
            final(self).d == old(self).d,
            final(self).usp == old(self).usp,
            forall|i: int| 0 <= i < 7 ==> final(self).a[i] == old(self).a[i],
            !final(self).halted && !final(self).stopped && !final(self).in_exception && !final(self).trace_pending,
            final(self).pending_irq == 0,
    {
        self.sr = SR_S;
        let sh = bus.read16(0);
        let sl = bus.read16(2);
        let s_hi = sh as u32;
        let s_lo = sl as u32;
        let ssp = (s_hi << 16) | s_lo;
        let ph = bus.read16(4);
        let pl = bus.read16(6);
        let p_hi = ph as u32;
        let p_lo = pl as u32;
        let pc = (p_hi << 16) | p_lo;
        let ghost read4 = bus.log();
        assert(read4 =~= old(bus).log() + seq![
            Access::Read16 { addr: 0, val: sh },
            Access::Read16 { addr: 2, val: sl },
            Access::Read16 { addr: 4, val: ph },
            Access::Read16 { addr: 6, val: pl },
        ]);
        self.ssp = ssp;
        self.a[7] = ssp;
        self.pc = pc;
        self.halted = false;
        self.stopped = false;
        self.pending_irq = 0;
        self.in_exception = false;
        self.trace_pending = false;
        self.refill_prefetch(bus);
        assert(reset_reads(old(bus).log(), bus.log(), *self, sh, sl, ph, pl));
    }

    /// Raises an interrupt at `level` (0 clears, 1-7 are IPL). The level is held
    /// until the caller lowers it again.
    pub fn set_irq(&mut self, level: u8)
        requires
            level <= 7,
        ensures
            *final(self) == (M68k { pending_irq: level, ..*old(self) }),
    {
        assert(level & 7 == level) by (bit_vector) requires level <= 7;
        self.pending_irq = level & 7;
    }
}

impl M68k {
    /// Executes one instruction, returning the cycles it consumed.
    ///
    /// At the instruction boundary a halted CPU only burns 4 cycles; a trace
    /// owed by the previous instruction is taken first, then a pending
    /// interrupt above the mask, and only then does a stopped CPU stay stopped.
    /// T is latched before the instruction runs.
    pub fn step_with<B: Bus>(&mut self, dec: &Decoder, bus: &mut B) -> (r: u32)
        requires
            dec.wf(),
        ensures
            old(self).halted ==> r == 4 && *final(self) == *old(self) && final(bus).log() == old(bus).log(),
            !old(self).halted && old(self).trace_pending ==> crate::exception::boundary_entry_accesses(
                (M68k { trace_pending: false, ..*old(self) }),
                old(bus).log(),
                final(bus).log(),
                crate::exception::VEC_TRACE,
                *final(self),
            ),
            !old(self).halted && !old(self).trace_pending && crate::exception::interrupt_accepted(*old(self))
                ==> crate::exception::boundary_entry_accesses(
                *old(self),
                old(bus).log(),
                final(bus).log(),
                (crate::exception::VEC_AUTOVECTOR_BASE + (old(self).pending_irq & 7)) as u8,
                *final(self),
            ),
            !old(self).halted && old(self).trace_pending ==> !final(self).trace_pending && !final(self).stopped,
            !old(self).halted && old(self).trace_pending && !crate::exception::double_fault_spec(*old(self)) ==> {
                &&& crate::exception::entered((M68k { stopped: false, ..*old(self) }), *final(self), 6)
                &&& r == crate::exception::SHORT_FRAME_ENTRY_CYCLES
            },
            !old(self).halted && !old(self).trace_pending && crate::exception::interrupt_accepted(*old(self))
                && !crate::exception::double_fault_spec(*old(self)) ==> {
                &&& crate::exception::entered_frame((M68k { stopped: false, ..*old(self) }), *final(self), 6)
                &&& final(self).sr & SR_S != 0 && final(self).sr & SR_T == 0
                &&& (final(self).sr >> 8u16) & 7 == (old(self).pending_irq & 7) as u16
                &&& r == crate::exception::INTERRUPT_CYCLES
            },
            !old(self).halted && !old(self).trace_pending && !crate::exception::interrupt_accepted(*old(self))
                && old(self).stopped ==> r == 4 && *final(self) == *old(self) && final(bus).log() == old(bus).log(),
            !old(self).halted && !old(self).trace_pending && !crate::exception::interrupt_accepted(*old(self))
                && !old(self).stopped ==> exists|mid: M68k| {
                &&& #[trigger] crate::decode::executes(
                    crate::decode::decoded(old(self).prefetch[0]),
                    trace_latched(*old(self)),
                    mid,
                    old(self).prefetch[0],
                    r,
                )
                &&& *final(self) == (if mid.halted { M68k { trace_pending: false, ..mid } } else { mid })
                &&& crate::decode::bus_effect(
                    crate::decode::decoded(old(self).prefetch[0]),
                    trace_latched(*old(self)),
                    mid,
                    old(self).prefetch[0],
                    old(bus).log(),
                    final(bus).log(),
                )
            },
    {
        if self.halted {
            return 4;
        }
        if self.trace_pending {
            self.trace_pending = false;
            return crate::exception::take_trace(self, bus);
        }
        if let Some(c) = crate::exception::check_interrupts(self, bus) {
            return c;
        }
        if self.stopped {
            return 4;
        }
        self.trace_pending = self.sr & SR_T != 0;
        let op = self.prefetch[0];
        let h = dec.dispatch(op);
        let cycles = crate::decode::execute(self, bus, h, op);
        let ghost mid = *self;
        if self.halted {
            self.trace_pending = false;
        }
        assert(crate::decode::executes(h, trace_latched(*old(self)), mid, op, cycles));
        cycles
    }
}

proof fn lemma_ccr_bits(sr: u16, x: bool, n: bool, z: bool, v: bool, c: bool)
    ensures
        ccr_bits(sr, x, n, z, v, c) & SR_X != 0 <==> x,
        ccr_bits(sr, x, n, z, v, c) & SR_N != 0 <==> n,
        ccr_bits(sr, x, n, z, v, c) & SR_Z != 0 <==> z,
        ccr_bits(sr, x, n, z, v, c) & SR_V != 0 <==> v,
        ccr_bits(sr, x, n, z, v, c) & SR_C != 0 <==> c,
        ccr_bits(sr, x, n, z, v, c) & 0xFFE0 == sr & 0xFFE0,
{
    let xb: u16 = if x { 16 } else { 0 };
    let nb: u16 = if n { 8 } else { 0 };
    let zb: u16 = if z { 4 } else { 0 };
    let vb: u16 = if v { 2 } else { 0 };
    let cb: u16 = if c { 1 } else { 0 };
    assert({
        let r = (sr & 0xFFE0) | xb | nb | zb | vb | cb;
        &&& (r & 16 != 0) == (xb == 16)
        &&& (r & 8 != 0) == (nb == 8)
        &&& (r & 4 != 0) == (zb == 4)
        &&& (r & 2 != 0) == (vb == 2)
        &&& (r & 1 != 0) == (cb == 1)
        &&& r & 0xFFE0 == sr & 0xFFE0
    }) by (bit_vector)
        requires
            xb == 0 || xb == 16,
            nb == 0 || nb == 8,
            zb == 0 || zb == 4,
            vb == 0 || vb == 2,
            cb == 0 || cb == 1,
    ;
}

/// Writing the condition codes and reading them back gives the values written.
pub proof fn ccr_roundtrip(cpu: M68k, x: bool, n: bool, z: bool, v: bool, c: bool)
    ensures
        ({
            let after = M68k { sr: ccr_bits(cpu.sr, x, n, z, v, c), ..cpu };
            after.spec_ccr_x() == x && after.spec_ccr_n() == n && after.spec_ccr_z() == z
                && after.spec_ccr_v() == v && after.spec_ccr_c() == c
        }),
{
    lemma_ccr_bits(cpu.sr, x, n, z, v, c);
}

/// Switching privilege and switching back restores the active stack pointer:
/// each `set_sr` that changes S parks the outgoing pointer in its slot before
/// loading the other, so nothing is lost on the way.
pub proof fn stack_switch_round_trip(cpu: M68k, val: u16)
    ensures
        set_sr_spec(set_sr_spec(cpu, val), cpu.sr).a[7] == cpu.a[7],
        set_sr_spec(set_sr_spec(cpu, val), cpu.sr).sr == cpu.sr & SR_MASK,
        forall|i: int| 0 <= i < 7 ==> set_sr_spec(set_sr_spec(cpu, val), cpu.sr).a[i] == cpu.a[i],
{
    assert(((val & SR_MASK) & SR_S != 0) == (val & SR_S != 0)) by (bit_vector);
}

} // verus!
