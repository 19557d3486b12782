#![allow(unused_imports, dead_code, unused_mut, unused_variables, clippy::all)]

use m68k::bus::Bus;
use m68k::cpu::{M68k, ADDR_MASK, SR_C, SR_MASK, SR_N, SR_S, SR_T, SR_V, SR_X, SR_Z};
use m68k::decode::Decoder;
use m68k::ea::{ext_words, modes, read, resolve, write_predec_long, Ea, Size};
use m68k::exception::{
    address_error, check_interrupts, entry_cycles, illegal_instruction, take, take_trace, FaultKind, Space,
    ADDRESS_ERROR_TAIL_CYCLES, HALTED_IDLE_CYCLES, IACK_AS_IDLE_CYCLES, INTERRUPT_CYCLES, SHORT_FRAME_ACCESSES,
    SHORT_FRAME_ENTRY_CYCLES, VEC_ADDRESS_ERROR, VEC_AUTOVECTOR_BASE, VEC_BUS_ERROR, VEC_CHK, VEC_DIVIDE_BY_ZERO,
    VEC_ILLEGAL, VEC_LINE_A, VEC_LINE_F, VEC_PRIVILEGE, VEC_TRACE, VEC_TRAPV, VEC_TRAP_BASE,
};
use m68k::flags::{accumulate_z, add_flags, logic_flags, sub_flags};
use m68k::{exception, ea, flags, cpu, ops};

pub struct FlatBus {
    pub mem: Vec<u8>,
}

impl Default for FlatBus {
    fn default() -> Self {
        Self::new()
    }
}

impl FlatBus {
    pub fn new() -> Self {
        Self {
            mem: vec![0; 0x10000],
        }
    }

    pub fn put16(&mut self, addr: u32, val: u16) {
        let [hi, lo] = val.to_be_bytes();
        let a = (addr & 0xFFFF) as usize;
        self.mem[a] = hi;
        self.mem[a + 1] = lo;
    }

    pub fn load(&mut self, addr: u32, words: &[u16]) {
        for (i, w) in words.iter().enumerate() {
            self.put16(addr + (i as u32) * 2, *w);
        }
    }
}

impl Bus for FlatBus {
    fn read8(&mut self, addr: u32) -> u8 {
        self.mem[(addr & 0xFFFF) as usize]
    }
    fn read16(&mut self, addr: u32) -> u16 {
        let a = (addr & 0xFFFE) as usize;
        u16::from_be_bytes([self.mem[a], self.mem[a + 1]])
    }
    fn write8(&mut self, addr: u32, val: u8) {
        self.mem[(addr & 0xFFFF) as usize] = val;
    }
    fn write16(&mut self, addr: u32, val: u16) {
        let [hi, lo] = val.to_be_bytes();
        let a = (addr & 0xFFFE) as usize;
        self.mem[a] = hi;
        self.mem[a + 1] = lo;
    }
}

pub struct StrictBus {
    inner: FlatBus,
    pub seen: Vec<u32>,
}

impl StrictBus {
    pub fn new() -> Self {
        Self {
            inner: FlatBus::new(),
            seen: Vec::new(),
        }
    }

    pub fn put16(&mut self, addr: u32, val: u16) {
        self.inner.put16(addr, val);
    }

    pub fn load(&mut self, addr: u32, words: &[u16]) {
        self.inner.load(addr, words);
    }

    pub fn peek16(&self, addr: u32) -> u16 {
        let a = (addr & 0xFFFE) as usize;
        u16::from_be_bytes([self.inner.mem[a], self.inner.mem[a + 1]])
    }

    fn check(&mut self, addr: u32) {
        assert!(
            addr <= ADDR_MASK,
            "the core presented {addr:#010X} to the bus, above the 24-bit \
             address bus: `Bus`'s contract says the core has already masked"
        );
        self.seen.push(addr);
    }
}

impl Bus for StrictBus {
    fn read8(&mut self, addr: u32) -> u8 {
        self.check(addr);
        self.inner.read8(addr)
    }
    fn read16(&mut self, addr: u32) -> u16 {
        self.check(addr);
        self.inner.read16(addr)
    }
    fn write8(&mut self, addr: u32, val: u8) {
        self.check(addr);
        self.inner.write8(addr, val);
    }
    fn write16(&mut self, addr: u32, val: u16) {
        self.check(addr);
        self.inner.write16(addr, val);
    }
}

pub struct RecordingBus {
    pub mem: Vec<u8>,
    pub log: Vec<(bool, u32, u16)>,
}

impl RecordingBus {
    pub fn new() -> Self {
        Self {
            mem: vec![0; 0x10000],
            log: Vec::new(),
        }
    }

    pub fn put16(&mut self, addr: u32, val: u16) {
        let [hi, lo] = val.to_be_bytes();
        let a = (addr & 0xFFFF) as usize;
        self.mem[a] = hi;
        self.mem[a + 1] = lo;
    }

    pub fn load(&mut self, addr: u32, words: &[u16]) {
        for (i, w) in words.iter().enumerate() {
            self.put16(addr + (i as u32) * 2, *w);
        }
    }

    pub fn writes(&self) -> Vec<(u32, u16)> {
        self.log
            .iter()
            .filter(|(w, _, _)| *w)
            .map(|(_, a, v)| (*a, *v))
            .collect()
    }

    #[allow(dead_code)]
    pub fn reads(&self) -> Vec<(u32, u16)> {
        self.log
            .iter()
            .filter(|(w, _, _)| !*w)
            .map(|(_, a, v)| (*a, *v))
            .collect()
    }
}

impl Bus for RecordingBus {
    fn read8(&mut self, addr: u32) -> u8 {
        let v = self.mem[(addr & 0xFFFF) as usize];
        self.log.push((false, addr & 0xFFFF, v as u16));
        v
    }
    fn read16(&mut self, addr: u32) -> u16 {
        let a = (addr & 0xFFFE) as usize;
        let v = u16::from_be_bytes([self.mem[a], self.mem[a + 1]]);
        self.log.push((false, addr & 0xFFFF, v));
        v
    }
    fn write8(&mut self, addr: u32, val: u8) {
        self.mem[(addr & 0xFFFF) as usize] = val;
        self.log.push((true, addr & 0xFFFF, val as u16));
    }
    fn write16(&mut self, addr: u32, val: u16) {
        let [hi, lo] = val.to_be_bytes();
        let a = (addr & 0xFFFE) as usize;
        self.mem[a] = hi;
        self.mem[a + 1] = lo;
        self.log.push((true, addr & 0xFFFF, val));
    }
}

#[test]
fn line_a_opcode_takes_vector_10_with_a_short_frame() {
    let mut bus = FlatBus::new();
    bus.load(0x1000, &[0xA000, 0x4E71]);
    bus.put16(0x0028, 0x0000);
    bus.put16(0x002A, 0x2000);
    bus.load(0x2000, &[0x4E71, 0x4E71]);

    let mut cpu = M68k::new();
    cpu.sr = SR_S | 0x0700;
    cpu.a[7] = 0x3000;
    cpu.pc = 0x1000;
    cpu.prime_prefetch(&mut bus);
    assert_eq!(cpu.pc, 0x1004);

    let dec = Decoder::new();
    cpu.step_with(&dec, &mut bus);

    assert_eq!(cpu.a[7], 0x2FFA);
    assert_eq!(
        bus.read16(0x2FFE),
        0x1000,
        "stacked PC[15:0] is the bad opcode"
    );
    assert_eq!(bus.read16(0x2FFC), 0x0000, "stacked PC[31:16]");
    assert_eq!(
        bus.read16(0x2FFA),
        SR_S | 0x0700,
        "stacked SR is the old SR"
    );

    assert_eq!(cpu.pc, 0x2004, "vectored, then refilled the queue");
    assert_eq!(cpu.prefetch, [0x4E71, 0x4E71]);
    assert!(cpu.sr_s());
}

#[test]
fn line_f_and_plain_illegal_use_their_own_vectors() {
    for (opcode, vector) in [(0xF000u16, 11u32), (0x4AFC, 4u32)] {
        let mut bus = FlatBus::new();
        bus.load(0x1000, &[opcode, 0x4E71]);
        let vaddr = vector * 4;
        bus.put16(vaddr, 0x0000);
        bus.put16(vaddr + 2, 0x2000);
        bus.load(0x2000, &[0x4E71, 0x4E71]);

        let mut cpu = M68k::new();
        cpu.sr = SR_S;
        cpu.a[7] = 0x3000;
        cpu.pc = 0x1000;
        cpu.prime_prefetch(&mut bus);

        let dec = Decoder::new();
        cpu.step_with(&dec, &mut bus);

        assert_eq!(
            cpu.pc, 0x2004,
            "opcode {opcode:04X} must use vector {vector}"
        );
    }
}

#[test]
fn exception_entry_clears_trace() {
    let mut bus = FlatBus::new();
    bus.load(0x1000, &[0xA000, 0x4E71]);
    bus.put16(0x002A, 0x2000);
    bus.load(0x2000, &[0x4E71, 0x4E71]);

    let mut cpu = M68k::new();
    cpu.sr = SR_S | SR_T;
    cpu.a[7] = 0x3000;
    cpu.pc = 0x1000;
    cpu.prime_prefetch(&mut bus);

    let dec = Decoder::new();
    cpu.step_with(&dec, &mut bus);

    assert_eq!(cpu.sr & SR_T, 0);
}

#[test]
fn short_frame_write_order_is_pc_low_sr_pc_high() {
    let mut bus = RecordingBus::new();
    bus.load(0x1000, &[0xA000, 0x4E71]);
    bus.put16(0x0028, 0x0000);
    bus.put16(0x002A, 0x2000);
    bus.load(0x2000, &[0x4E71, 0x4E71]);

    let mut cpu = M68k::new();
    cpu.sr = SR_S | 0x0700;
    cpu.a[7] = 0x3000;
    cpu.pc = 0x1000;
    cpu.prime_prefetch(&mut bus);
    bus.log.clear();

    let dec = Decoder::new();
    cpu.step_with(&dec, &mut bus);

    let writes = bus.writes();
    assert!(writes.len() >= 3, "expected at least 3 frame writes");
    assert_eq!(
        writes[0],
        (0x2FFE, 0x1000),
        "write 0 must be PC[15:0] at SP-2"
    );
    assert_eq!(
        writes[1],
        (0x2FFA, SR_S | 0x0700),
        "write 1 must be SR at SP-6"
    );
    assert_eq!(
        writes[2],
        (0x2FFC, 0x0000),
        "write 2 must be PC[31:16] at SP-4"
    );
}

#[test]
fn an_interrupt_above_the_mask_vectors_and_stacks_the_next_instruction() {
    let mut bus = RecordingBus::new();
    bus.load(0x1000, &[0x4E71, 0x4E71, 0x4E71]);
    bus.put16(0x0074, 0x0000);
    bus.put16(0x0076, 0x2000);
    bus.load(0x2000, &[0x4E71, 0x4E71]);

    let mut cpu = M68k::new();
    cpu.sr = SR_S | 0x0200;
    cpu.a[7] = 0x3000;
    cpu.pc = 0x1000;
    cpu.prime_prefetch(&mut bus);
    assert_eq!(cpu.pc, 0x1004);
    cpu.set_irq(5);
    bus.log.clear();

    let cycles = cpu.step_with(&Decoder::new(), &mut bus);

    assert_eq!(
        bus.log.len(),
        SHORT_FRAME_ACCESSES as usize,
        "3 frame writes + 2 vector reads + 2 refills, and NO IACK access: \
         `Bus` carries no function code, so this core spends the IACK's 4 \
         cycles as idle"
    );
    assert_eq!(
        cycles, 44,
        "4 × 7 accesses + 4 (the IACK, as idle) + 12 idle — the manual's \
         total, reached by this core's own decomposition and not by its"
    );
    assert_eq!(
        bus.writes(),
        vec![(0x2FFE, 0x1000), (0x2FFA, SR_S | 0x0200), (0x2FFC, 0x0000)],
        "the frame stacks pc - 4 and the OLD mask"
    );
    assert_eq!(cpu.sr, SR_S | 0x0500, "entry raises the mask to level 5");
    assert_eq!(cpu.pc, 0x2004, "vectored through 29, queue refilled");
}

#[test]
fn interrupts_at_or_below_the_mask_are_ignored_but_level_7_is_not() {
    for (level, mask, expect_taken) in [
        (2u8, 0x0200u16, false),
        (3, 0x0200, true),
        (7, 0x0700, true),
        (6, 0x0700, false),
    ] {
        let mut bus = RecordingBus::new();
        bus.load(0x1000, &[0x4E71, 0x4E71, 0x4E71]);
        bus.put16(0x2000, 0x4E71);

        let mut cpu = M68k::new();
        cpu.sr = SR_S | mask;
        cpu.a[7] = 0x3000;
        cpu.pc = 0x1000;
        cpu.prime_prefetch(&mut bus);
        cpu.set_irq(level);
        bus.log.clear();

        cpu.step_with(&Decoder::new(), &mut bus);

        let taken = !bus.writes().is_empty();
        assert_eq!(
            taken, expect_taken,
            "level {level} against mask {mask:#06X}"
        );
    }
}

#[test]
fn resuming_from_stop_runs_the_instruction_after_it() {
    let mut bus = RecordingBus::new();
    bus.load(0x1000, &[0x4E72, 0x2000, 0x4E71, 0x4E71, 0x4E71]);
    bus.put16(0x0074, 0x0000);
    bus.put16(0x0076, 0x3000);
    bus.load(0x3000, &[0x4E71, 0x4E71]);

    let mut cpu = M68k::new();
    cpu.sr = SR_S;
    cpu.a[7] = 0x4000;
    cpu.pc = 0x1000;
    cpu.prime_prefetch(&mut bus);

    let dec = Decoder::new();
    assert_eq!(cpu.step_with(&dec, &mut bus), 4, "STOP costs 4");
    assert!(cpu.stopped);
    assert_eq!(cpu.prefetch[0], 0x4E72, "the queue still holds the STOP");

    let pc_while_stopped = cpu.pc;
    assert_eq!(cpu.step_with(&dec, &mut bus), 4);
    assert_eq!(cpu.pc, pc_while_stopped, "the PC stays frozen");
    assert!(cpu.stopped);

    cpu.set_irq(5);
    bus.log.clear();
    cpu.step_with(&dec, &mut bus);

    assert!(!cpu.stopped, "the interrupt resumed the CPU");
    assert_eq!(
        bus.writes(),
        vec![(0x3FFE, 0x1004), (0x3FFA, 0x2000), (0x3FFC, 0x0000)],
        "the stacked PC is the NOP after the STOP, not the STOP itself"
    );
    assert_eq!(cpu.pc, 0x3004, "the handler is entered");
    assert_eq!(
        cpu.prefetch,
        [0x4E71, 0x4E71],
        "the handler's words, not the STOP's"
    );
}

#[test]
fn trace_fires_on_the_boundary_after_the_instruction() {
    let mut bus = RecordingBus::new();
    bus.load(0x1000, &[0x4E71, 0x4E71, 0x4E71]);
    bus.put16(0x0024, 0x0000);
    bus.put16(0x0026, 0x2000);
    bus.load(0x2000, &[0x4E71, 0x4E71]);

    let mut cpu = M68k::new();
    cpu.sr = SR_S | SR_T;
    cpu.a[7] = 0x3000;
    cpu.pc = 0x1000;
    cpu.prime_prefetch(&mut bus);
    bus.log.clear();

    let dec = Decoder::new();
    let nop_cycles = cpu.step_with(&dec, &mut bus);
    assert_eq!(nop_cycles, 4, "a NOP is a NOP even with T set");
    assert_eq!(
        bus.writes(),
        vec![],
        "no trace frame within the instruction"
    );
    assert_eq!(cpu.sr, SR_S | SR_T, "T survives a clean instruction");

    let trace_cycles = cpu.step_with(&dec, &mut bus);
    assert_eq!(trace_cycles, 34);
    assert_eq!(
        bus.writes(),
        vec![(0x2FFE, 0x1002), (0x2FFA, SR_S | SR_T), (0x2FFC, 0x0000)],
        "the stacked PC is the instruction after the traced NOP, and the \
         stacked SR keeps T set"
    );
    assert_eq!(cpu.sr & SR_T, 0, "the final SR clears T");
    assert_eq!(cpu.pc, 0x2004);
}

#[test]
fn an_odd_frame_base_halts_without_writing_a_frame() {
    let mut bus = RecordingBus::new();
    bus.put16(0x000C, 0x0000);
    bus.put16(0x000E, 0x2000);
    bus.load(0x2000, &[0x4E71, 0x4E71]);

    let mut cpu = M68k::new();
    cpu.sr = SR_S;
    cpu.a[7] = 0x2FFF;
    cpu.pc = 0x1004;
    bus.log.clear();

    address_error(
        &mut cpu,
        &mut bus,
        0x1235,
        FaultKind::Read,
        Space::Data,
        0x4E71,
        0x1000,
    );

    assert!(cpu.halted, "odd frame base is a double bus fault");
    assert_eq!(bus.log, vec![], "no frame, no vector fetch");
    assert_eq!(cpu.a[7], 0x2FFF, "nothing committed");
    assert_eq!(cpu.sr, SR_S, "the SR is untouched");
    assert_eq!(cpu.pc, 0x1004, "the PC is untouched");
}

#[test]
fn an_even_frame_base_still_writes_the_long_frame() {
    let mut bus = RecordingBus::new();
    bus.put16(0x000C, 0x0000);
    bus.put16(0x000E, 0x2000);
    bus.load(0x2000, &[0x4E71, 0x4E71]);

    let mut cpu = M68k::new();
    cpu.sr = SR_S;
    cpu.a[7] = 0x3000;
    cpu.pc = 0x1004;
    bus.log.clear();

    address_error(
        &mut cpu,
        &mut bus,
        0x1235,
        FaultKind::Read,
        Space::Data,
        0x4E71,
        0x1000,
    );

    assert!(!cpu.halted);
    assert_eq!(bus.writes().len(), 7, "the 7-word frame");
    assert_eq!(cpu.a[7], 0x2FF2, "base - 14");
}

#[test]
fn in_user_mode_the_frame_base_is_the_ssp_not_the_active_sp() {
    let mut bus = RecordingBus::new();
    bus.put16(0x000C, 0x0000);
    bus.put16(0x000E, 0x2000);
    bus.load(0x2000, &[0x4E71, 0x4E71]);

    let mut cpu = M68k::new();
    cpu.sr = 0x0000;
    cpu.a[7] = 0x7FFF;
    cpu.ssp = 0x3000;
    cpu.pc = 0x1004;
    bus.log.clear();

    take(&mut cpu, &mut bus, VEC_ILLEGAL, 0x1000);

    assert!(
        !cpu.halted,
        "an odd USP is irrelevant: the frame is on the SSP"
    );
    assert_eq!(bus.writes().len(), 3, "the short frame was written");
    assert_eq!(
        cpu.a[7], 0x2FFA,
        "a[7] is now the supervisor stack, base - 6"
    );
    assert_eq!(cpu.usp, 0x7FFF, "the odd USP is preserved untouched");

    let mut bus = RecordingBus::new();
    bus.put16(0x000C, 0x0000);
    bus.put16(0x000E, 0x2000);

    let mut cpu = M68k::new();
    cpu.sr = 0x0000;
    cpu.a[7] = 0x8000;
    cpu.ssp = 0x2FFF;
    cpu.pc = 0x1004;
    bus.log.clear();

    take(&mut cpu, &mut bus, VEC_ILLEGAL, 0x1000);

    assert!(
        cpu.halted,
        "an odd SSP is the double bus fault, from user mode too"
    );
    assert_eq!(bus.log, vec![], "no frame, no vector fetch");
}

#[test]
fn a_fault_during_exception_entry_halts_instead_of_recursing() {
    let mut bus = RecordingBus::new();
    bus.put16(0x000C, 0x0000);
    bus.put16(0x000E, 0x2000);

    let mut cpu = M68k::new();
    cpu.sr = SR_S;
    cpu.a[7] = 0x3000;
    cpu.pc = 0x1004;
    cpu.in_exception = true;
    bus.log.clear();

    take(&mut cpu, &mut bus, VEC_ILLEGAL, 0x1000);

    assert!(cpu.halted);
    assert_eq!(bus.log, vec![], "no second frame");
    assert_eq!(cpu.a[7], 0x3000, "nothing committed");
}

#[test]
fn single_stepping_with_an_rte_handler_advances_one_instruction_per_trace() {
    let mut bus = RecordingBus::new();
    bus.load(0x2000, &[0x4E71, 0x4E71, 0x4E71, 0x4E71]);
    bus.put16(0x0024, 0x0000);
    bus.put16(0x0026, 0x3000);
    bus.load(0x3000, &[0x4E73, 0x4E71]);

    let mut cpu = M68k::new();
    cpu.sr = SR_S | SR_T | 0x0700;
    cpu.a[7] = 0x4000;
    cpu.pc = 0x2000;
    cpu.prime_prefetch(&mut bus);

    let dec = Decoder::new();
    let mut reached = Vec::new();
    for _ in 0..12 {
        if cpu.pc < 0x3000 && !cpu.trace_pending {
            reached.push(cpu.pc);
        }
        cpu.step_with(&dec, &mut bus);
        assert!(!cpu.halted, "single-stepping must not halt");
    }

    assert_eq!(
        reached,
        vec![0x2004, 0x2006, 0x2008, 0x200A],
        "one distinct traced instruction per handler entry: an \
         end-of-instruction sample re-enters the handler forever and reaches \
         only the first"
    );
    assert_eq!(
        cpu.a[7], 0x4000,
        "each RTE unwinds its own frame; the stack does not drift"
    );
}

#[test]
fn t_is_sampled_at_instruction_start_not_at_its_end() {
    let mut bus = RecordingBus::new();
    bus.load(0x1000, &[0x027C, 0x7FFF, 0x4E71, 0x4E71, 0x4E71]);
    bus.put16(0x0024, 0x0000);
    bus.put16(0x0026, 0x2000);
    bus.load(0x2000, &[0x4E71, 0x4E71]);

    let mut cpu = M68k::new();
    cpu.sr = SR_S | SR_T | 0x0700;
    cpu.a[7] = 0x3000;
    cpu.pc = 0x1000;
    cpu.prime_prefetch(&mut bus);

    let dec = Decoder::new();
    bus.log.clear();
    cpu.step_with(&dec, &mut bus);
    assert_eq!(
        bus.writes(),
        vec![],
        "no frame within the traced instruction"
    );
    assert_eq!(cpu.sr & SR_T, 0, "the ANDI really did clear T");

    bus.log.clear();
    cpu.step_with(&dec, &mut bus);
    assert_eq!(
        bus.writes(),
        vec![(0x2FFE, 0x1004), (0x2FFA, SR_S | 0x0700), (0x2FFC, 0x0000)],
        "T was set at entry, so the trace is owed even though the \
         instruction cleared it; the stacked SR is the cleared one"
    );
    assert_eq!(cpu.pc, 0x2004, "vectored through 9");

    let mut bus = RecordingBus::new();
    bus.load(0x1000, &[0x007C, 0x8000, 0x4E71, 0x4E71, 0x4E71]);
    bus.put16(0x0024, 0x0000);
    bus.put16(0x0026, 0x2000);
    bus.load(0x2000, &[0x4E71, 0x4E71]);

    let mut cpu = M68k::new();
    cpu.sr = SR_S | 0x0700;
    cpu.a[7] = 0x3000;
    cpu.pc = 0x1000;
    cpu.prime_prefetch(&mut bus);

    bus.log.clear();
    cpu.step_with(&dec, &mut bus);
    assert_eq!(cpu.sr & SR_T, SR_T, "the ORI really did set T");
    assert_eq!(
        bus.writes(),
        vec![],
        "setting T does not trace the instruction that set it"
    );

    bus.log.clear();
    cpu.step_with(&dec, &mut bus);
    assert_eq!(bus.writes(), vec![], "still inside the traced instruction");

    bus.log.clear();
    cpu.step_with(&dec, &mut bus);
    assert_eq!(
        bus.writes(),
        vec![
            (0x2FFE, 0x1006),
            (0x2FFA, SR_S | SR_T | 0x0700),
            (0x2FFC, 0x0000)
        ],
        "tracing begins with the instruction after the one that set T"
    );
    assert_eq!(cpu.pc, 0x2004, "vectored through 9");
}

#[test]
fn an_aborted_instruction_owes_no_trace_but_a_completed_trap_does() {
    let vectors = |bus: &mut RecordingBus| {
        bus.put16(0x000C, 0x0000);
        bus.put16(0x000E, 0x2000);
        bus.load(0x2000, &[0x4E71, 0x4E71]);
        bus.put16(0x0024, 0x0000);
        bus.put16(0x0026, 0x3000);
        bus.load(0x3000, &[0x4E71, 0x4E71]);
        bus.put16(0x0080, 0x0000);
        bus.put16(0x0082, 0x4000);
        bus.load(0x4000, &[0x4E71, 0x4E71]);
    };

    let mut bus = RecordingBus::new();
    bus.load(0x1000, &[0x3080, 0x4E71, 0x4E71]);
    vectors(&mut bus);

    let mut cpu = M68k::new();
    cpu.sr = SR_S | SR_T | 0x0700;
    cpu.a[7] = 0x5000;
    cpu.a[0] = 0x6001;
    cpu.pc = 0x1000;
    cpu.prime_prefetch(&mut bus);

    let dec = Decoder::new();
    cpu.step_with(&dec, &mut bus);
    assert!(
        !cpu.halted,
        "an odd operand address faults, it does not halt"
    );
    assert_eq!(cpu.pc, 0x2004, "vectored through 3");

    bus.log.clear();
    cpu.step_with(&dec, &mut bus);
    assert_eq!(
        bus.writes(),
        vec![],
        "no trace frame: the aborted instruction never completed, so the PRM's \
         condition was never met"
    );
    assert_eq!(
        cpu.pc, 0x2006,
        "execution continues in the vector-3 handler, not in a trace handler"
    );

    let mut bus = RecordingBus::new();
    bus.load(0x1000, &[0x4E40, 0x4E71, 0x4E71]);
    vectors(&mut bus);

    let mut cpu = M68k::new();
    cpu.sr = SR_S | SR_T | 0x0700;
    cpu.a[7] = 0x5000;
    cpu.pc = 0x1000;
    cpu.prime_prefetch(&mut bus);

    cpu.step_with(&dec, &mut bus);
    assert_eq!(cpu.pc, 0x4004, "vectored through 32");

    bus.log.clear();
    cpu.step_with(&dec, &mut bus);
    assert_eq!(
        cpu.pc, 0x3004,
        "the TRAP completed, so its trace fires before the trap handler runs"
    );
    assert_eq!(
        bus.writes().len(),
        3,
        "and it is a real frame, stacked on top of the trap's"
    );
}

#[test]
fn stop_with_t_set_traces_and_resumes_instead_of_wedging() {
    let mut bus = RecordingBus::new();
    bus.load(0x1000, &[0x4E72, 0xA700, 0x4E71, 0x4E71]);
    bus.put16(0x0024, 0x0000);
    bus.put16(0x0026, 0x2000);
    bus.load(0x2000, &[0x5240, 0x4E71, 0x4E71]);

    let mut cpu = M68k::new();
    cpu.sr = SR_S | 0x0700;
    cpu.a[7] = 0x3000;
    cpu.pc = 0x1000;
    cpu.prime_prefetch(&mut bus);

    let dec = Decoder::new();
    assert_eq!(cpu.step_with(&dec, &mut bus), 4, "STOP still costs 4");
    assert!(cpu.stopped);
    assert!(cpu.trace_pending, "the immediate set T, so a trace is owed");

    let trace_cycles = cpu.step_with(&dec, &mut bus);
    assert_eq!(trace_cycles, 34, "the group-2 short frame");
    assert!(
        !cpu.stopped,
        "the trace resumed the CPU: nothing is both stopped and in a handler"
    );
    assert_eq!(cpu.pc, 0x2004, "the handler was entered");
    assert_eq!(
        bus.writes(),
        vec![(0x2FFE, 0x1004), (0x2FFA, SR_S | 0xA700), (0x2FFC, 0x0000)],
        "the frame stacks the instruction after the STOP, and an SR with T set"
    );

    cpu.step_with(&dec, &mut bus);
    assert_eq!(cpu.d[0], 1, "the handler's first instruction executed");
}

#[test]
fn stop_without_t_stays_stopped() {
    let mut bus = RecordingBus::new();
    bus.load(0x1000, &[0x4E72, 0x2700, 0x4E71]);

    let mut cpu = M68k::new();
    cpu.sr = SR_S | 0x0700;
    cpu.a[7] = 0x3000;
    cpu.pc = 0x1000;
    cpu.prime_prefetch(&mut bus);

    let dec = Decoder::new();
    cpu.step_with(&dec, &mut bus);
    assert!(cpu.stopped);
    assert!(!cpu.trace_pending, "the immediate left T clear");

    let pc = cpu.pc;
    bus.log.clear();
    for _ in 0..5 {
        assert_eq!(cpu.step_with(&dec, &mut bus), 4);
    }
    assert!(cpu.stopped, "still stopped with no interrupt and no trace");
    assert_eq!(cpu.pc, pc, "the PC stayed frozen");
    assert_eq!(bus.log, vec![], "and nothing reached the bus");
}

#[test]
fn a_halted_entry_costs_only_the_accesses_it_made() {
    let mut bus = RecordingBus::new();
    bus.load(0x1000, &[0x4AFC, 0x4E71]);
    bus.put16(0x0010, 0x0000);
    bus.put16(0x0012, 0x2000);

    let mut cpu = M68k::new();
    cpu.sr = SR_S;
    cpu.a[7] = 0x2FFF;
    cpu.pc = 0x1000;
    cpu.prime_prefetch(&mut bus);
    bus.log.clear();

    let cycles = cpu.step_with(&Decoder::new(), &mut bus);

    assert!(cpu.halted);
    assert_eq!(bus.log, vec![], "zero accesses: no frame, no vector fetch");
    assert_eq!(
        cycles, HALTED_IDLE_CYCLES,
        "4 × 0 accesses + the extrapolated halt idle — not the framed 34"
    );

    assert!(
        cycles > 0,
        "a halting step that costs nothing lets a cycle-budgeted driver loop \
         forever without advancing its clock"
    );
    assert_eq!(
        cycles,
        cpu.step_with(&Decoder::new(), &mut bus),
        "the halting step costs what every subsequent halted step costs: the \
         halt is not a discontinuity in the cycle stream"
    );
}

#[test]
fn an_unhalted_entry_still_costs_the_full_frame() {
    let mut bus = RecordingBus::new();
    bus.load(0x1000, &[0x4AFC, 0x4E71]);
    bus.put16(0x0010, 0x0000);
    bus.put16(0x0012, 0x2000);
    bus.load(0x2000, &[0x4E71, 0x4E71]);

    let mut cpu = M68k::new();
    cpu.sr = SR_S;
    cpu.a[7] = 0x3000;
    cpu.pc = 0x1000;
    cpu.prime_prefetch(&mut bus);
    bus.log.clear();

    let cycles = cpu.step_with(&Decoder::new(), &mut bus);

    assert!(!cpu.halted);
    assert_eq!(bus.log.len(), 7, "the full short-frame access count");
    assert_eq!(cycles, 4 * SHORT_FRAME_ACCESSES + 6, "4 × 7 + 6 idle");
}

#[test]
fn a_halted_trace_entry_is_charged_for_its_resume_refill_and_no_more() {
    let mut bus = RecordingBus::new();
    bus.load(0x1000, &[0x4E71, 0x4E71]);
    bus.put16(0x0024, 0x0000);
    bus.put16(0x0026, 0x2000);

    let mut cpu = M68k::new();
    cpu.sr = SR_S | SR_T | 0x0700;
    cpu.a[7] = 0x2FFF;
    cpu.pc = 0x1000;
    cpu.prime_prefetch(&mut bus);

    let dec = Decoder::new();
    cpu.step_with(&dec, &mut bus);
    assert!(cpu.trace_pending, "the NOP ran with T set");
    bus.log.clear();

    let cycles = cpu.step_with(&dec, &mut bus);
    assert!(cpu.halted);
    assert_eq!(bus.log, vec![], "zero accesses: no frame, no vector fetch");
    assert_eq!(
        cycles, HALTED_IDLE_CYCLES,
        "4 × 0 accesses + the halt idle — not the framed 34"
    );

    let mut bus = RecordingBus::new();
    bus.load(0x1000, &[0x4E72, 0xA700, 0x4E71]);
    bus.put16(0x0024, 0x0000);
    bus.put16(0x0026, 0x2000);

    let mut cpu = M68k::new();
    cpu.sr = SR_S | 0x0700;
    cpu.a[7] = 0x2FFF;
    cpu.pc = 0x1000;
    cpu.prime_prefetch(&mut bus);

    cpu.step_with(&dec, &mut bus);
    assert!(cpu.stopped && cpu.trace_pending);
    bus.log.clear();

    let cycles = cpu.step_with(&dec, &mut bus);
    assert!(cpu.halted);
    assert_eq!(
        bus.log.len(),
        2,
        "the resume refill happened; the frame and vector did not"
    );
    assert!(
        bus.writes().is_empty(),
        "a halt writes no frame, so the refill is all of it"
    );
    assert_eq!(
        cycles,
        4 * 2 + HALTED_IDLE_CYCLES,
        "the 2 refill accesses are charged and nothing else is"
    );
}

#[test]
fn a_halted_interrupt_entry_charges_its_refill_and_leaves_the_mask_alone() {
    let mut bus = RecordingBus::new();
    bus.load(0x1000, &[0x4E72, 0x2100, 0x4E71]);
    bus.put16(0x0074, 0x0000);
    bus.put16(0x0076, 0x2000);

    let mut cpu = M68k::new();
    cpu.sr = SR_S | 0x0700;
    cpu.a[7] = 0x2FFF;
    cpu.pc = 0x1000;
    cpu.prime_prefetch(&mut bus);

    let dec = Decoder::new();
    cpu.step_with(&dec, &mut bus);
    assert!(cpu.stopped);
    assert_eq!(
        cpu.sr & 0x0700,
        0x0100,
        "the STOP immediate lowered the mask"
    );
    cpu.set_irq(5);
    let sr_before = cpu.sr;
    bus.log.clear();

    let cycles = cpu.step_with(&dec, &mut bus);

    assert!(cpu.halted);
    assert_eq!(
        bus.log.len(),
        2,
        "the resume refill happened; the frame and vector did not"
    );
    assert!(bus.writes().is_empty(), "a halt writes no frame");
    assert_eq!(
        cycles,
        4 * 2 + HALTED_IDLE_CYCLES,
        "the 2 refill accesses are charged — not the framed 44"
    );
    assert_eq!(
        cpu.sr, sr_before,
        "the serviced level is not masked on a halt: nothing stacked the old one"
    );
}
