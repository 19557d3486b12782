#![allow(unused_imports, dead_code, unused_mut, unused_variables, clippy::all)]

use m68k::bus::Bus;
use m68k::cpu::{M68k, ADDR_MASK, SR_C, SR_MASK, SR_N, SR_S, SR_T, SR_V, SR_X, SR_Z};
use m68k::decode::Decoder;
use m68k::ea::{ext_words, modes, read, resolve, write_predec_long, Ea, Size};
use m68k::exception::{
    address_error, check_interrupts, entry_cycles, illegal_instruction, take, take_trace, FaultKind, Space,
    ADDRESS_ERROR_TAIL_CYCLES, HALTED_IDLE_CYCLES, IACK_AS_IDLE_CYCLES, INTERRUPT_CYCLES, SHORT_FRAME_ACCESSES,
    SHORT_FRAME_ENTRY_CYCLES, VEC_ADDRESS_ERROR, VEC_AUTOVECTOR_BASE, VEC_BUS_ERROR, VEC_CHK, VEC_DIVIDE_BY_ZERO,
    VEC_ILLEGAL, VEC_LINE_A, VEC_LINE_F, VEC_PRIVILEGE, VEC_TRACE, VEC_TRAPV, VEC_TRAP_BASE,
};
use m68k::flags::{accumulate_z, add_flags, logic_flags, sub_flags};
use m68k::{exception, ea, flags, cpu, ops};
use m68k::ops::trap::GROUP2_CYCLES;

pub struct FlatBus {
    pub mem: Vec<u8>,
}

impl Default for FlatBus {
    fn default() -> Self {
        Self::new()
    }
}

impl FlatBus {
    pub fn new() -> Self {
        Self {
            mem: vec![0; 0x10000],
        }
    }

    pub fn put16(&mut self, addr: u32, val: u16) {
        let [hi, lo] = val.to_be_bytes();
        let a = (addr & 0xFFFF) as usize;
        self.mem[a] = hi;
        self.mem[a + 1] = lo;
    }

    pub fn load(&mut self, addr: u32, words: &[u16]) {
        for (i, w) in words.iter().enumerate() {
            self.put16(addr + (i as u32) * 2, *w);
        }
    }
}

impl Bus for FlatBus {
    fn read8(&mut self, addr: u32) -> u8 {
        self.mem[(addr & 0xFFFF) as usize]
    }
    fn read16(&mut self, addr: u32) -> u16 {
        let a = (addr & 0xFFFE) as usize;
        u16::from_be_bytes([self.mem[a], self.mem[a + 1]])
    }
    fn write8(&mut self, addr: u32, val: u8) {
        self.mem[(addr & 0xFFFF) as usize] = val;
    }
    fn write16(&mut self, addr: u32, val: u16) {
        let [hi, lo] = val.to_be_bytes();
        let a = (addr & 0xFFFE) as usize;
        self.mem[a] = hi;
        self.mem[a + 1] = lo;
    }
}

pub struct StrictBus {
    inner: FlatBus,
    pub seen: Vec<u32>,
}

impl StrictBus {
    pub fn new() -> Self {
        Self {
            inner: FlatBus::new(),
            seen: Vec::new(),
        }
    }

    pub fn put16(&mut self, addr: u32, val: u16) {
        self.inner.put16(addr, val);
    }

    pub fn load(&mut self, addr: u32, words: &[u16]) {
        self.inner.load(addr, words);
    }

    pub fn peek16(&self, addr: u32) -> u16 {
        let a = (addr & 0xFFFE) as usize;
        u16::from_be_bytes([self.inner.mem[a], self.inner.mem[a + 1]])
    }

    fn check(&mut self, addr: u32) {
        assert!(
            addr <= ADDR_MASK,
            "the core presented {addr:#010X} to the bus, above the 24-bit \
             address bus: `Bus`'s contract says the core has already masked"
        );
        self.seen.push(addr);
    }
}

impl Bus for StrictBus {
    fn read8(&mut self, addr: u32) -> u8 {
        self.check(addr);
        self.inner.read8(addr)
    }
    fn read16(&mut self, addr: u32) -> u16 {
        self.check(addr);
        self.inner.read16(addr)
    }
    fn write8(&mut self, addr: u32, val: u8) {
        self.check(addr);
        self.inner.write8(addr, val);
    }
    fn write16(&mut self, addr: u32, val: u16) {
        self.check(addr);
        self.inner.write16(addr, val);
    }
}

pub struct RecordingBus {
    pub mem: Vec<u8>,
    pub log: Vec<(bool, u32, u16)>,
}

impl RecordingBus {
    pub fn new() -> Self {
        Self {
            mem: vec![0; 0x10000],
            log: Vec::new(),
        }
    }

    pub fn put16(&mut self, addr: u32, val: u16) {
        let [hi, lo] = val.to_be_bytes();
        let a = (addr & 0xFFFF) as usize;
        self.mem[a] = hi;
        self.mem[a + 1] = lo;
    }

    pub fn load(&mut self, addr: u32, words: &[u16]) {
        for (i, w) in words.iter().enumerate() {
            self.put16(addr + (i as u32) * 2, *w);
        }
    }

    pub fn writes(&self) -> Vec<(u32, u16)> {
        self.log
            .iter()
            .filter(|(w, _, _)| *w)
            .map(|(_, a, v)| (*a, *v))
            .collect()
    }

    #[allow(dead_code)]
    pub fn reads(&self) -> Vec<(u32, u16)> {
        self.log
            .iter()
            .filter(|(w, _, _)| !*w)
            .map(|(_, a, v)| (*a, *v))
            .collect()
    }
}

impl Bus for RecordingBus {
    fn read8(&mut self, addr: u32) -> u8 {
        let v = self.mem[(addr & 0xFFFF) as usize];
        self.log.push((false, addr & 0xFFFF, v as u16));
        v
    }
    fn read16(&mut self, addr: u32) -> u16 {
        let a = (addr & 0xFFFE) as usize;
        let v = u16::from_be_bytes([self.mem[a], self.mem[a + 1]]);
        self.log.push((false, addr & 0xFFFF, v));
        v
    }
    fn write8(&mut self, addr: u32, val: u8) {
        self.mem[(addr & 0xFFFF) as usize] = val;
        self.log.push((true, addr & 0xFFFF, val as u16));
    }
    fn write16(&mut self, addr: u32, val: u16) {
        let [hi, lo] = val.to_be_bytes();
        let a = (addr & 0xFFFE) as usize;
        self.mem[a] = hi;
        self.mem[a + 1] = lo;
        self.log.push((true, addr & 0xFFFF, val));
    }
}

#[test]
fn rte_to_user_mode_swaps_in_the_usp() {
    let mut bus = RecordingBus::new();
    bus.load(0x1000, &[0x4E73, 0x4E71]);
    bus.put16(0x3000, 0x0000);
    bus.put16(0x3002, 0x0000);
    bus.put16(0x3004, 0x2000);
    bus.load(0x2000, &[0x4E71, 0x4E71]);

    let mut cpu = M68k::new();
    cpu.sr = SR_S;
    cpu.a[7] = 0x3000;
    cpu.usp = 0x8000;
    cpu.pc = 0x1000;
    cpu.prime_prefetch(&mut bus);

    let cycles = cpu.step_with(&Decoder::new(), &mut bus);

    assert_eq!(cycles, 20);
    assert_eq!(cpu.sr, 0x0000, "popped SR installed, S cleared");
    assert_eq!(cpu.a[7], 0x8000, "a[7] is now the USP");
    assert_eq!(cpu.ssp, 0x3006, "the SSP kept the +6 from the pops");
    assert_eq!(cpu.pc, 0x2004, "refilled at the popped PC");
}

#[test]
fn rte_with_an_odd_ssp_halts_and_writes_nothing() {
    let mut bus = RecordingBus::new();
    bus.load(0x1000, &[0x4E73, 0x4E71]);
    bus.put16(0x000C, 0x0000);
    bus.put16(0x000E, 0x2000);

    let mut cpu = M68k::new();
    cpu.sr = SR_S;
    cpu.a[7] = 0x3001;
    cpu.pc = 0x1000;
    cpu.prime_prefetch(&mut bus);
    bus.log.clear();

    let cycles = cpu.step_with(&Decoder::new(), &mut bus);

    assert!(cpu.halted, "an odd SSP is a double bus fault");
    assert_eq!(bus.writes(), vec![], "no frame was written");
    assert_eq!(bus.reads(), vec![], "the odd pop never reached the bus");
    assert_eq!(
        cycles,
        exception::HALTED_IDLE_CYCLES,
        "4 × 0 accesses + the halt idle. The full 58 would be a 58-cycle \
         claim about a step with an empty bus log"
    );
    assert_eq!(cpu.a[7], 0x3001, "nothing was committed");
    assert_eq!(cpu.sr, SR_S, "the SR is untouched");
    assert_eq!(cpu.pc, 0x1004, "the PC is untouched");
}

#[test]
fn trapv_with_v_clear_advances_the_queue_only() {
    let mut bus = RecordingBus::new();
    bus.load(0x1000, &[0x4E76, 0x4E71, 0x4E71]);

    let mut cpu = M68k::new();
    cpu.sr = SR_S;
    cpu.a[7] = 0x3000;
    cpu.pc = 0x1000;
    cpu.prime_prefetch(&mut bus);
    bus.log.clear();

    let cycles = cpu.step_with(&Decoder::new(), &mut bus);

    assert_eq!(cycles, 4);
    assert_eq!(bus.reads(), vec![(0x1004, 0x4E71)], "one read, at pc");
    assert_eq!(bus.writes(), vec![], "no frame");
    assert_eq!(cpu.a[7], 0x3000, "the stack is untouched");
}

#[test]
fn trapv_with_v_set_reads_before_stacking() {
    let mut bus = RecordingBus::new();
    bus.load(0x1000, &[0x4E76, 0x4E71, 0x4E71]);
    bus.put16(0x001C, 0x0000);
    bus.put16(0x001E, 0x2000);
    bus.load(0x2000, &[0x4E71, 0x4E71]);

    let mut cpu = M68k::new();
    cpu.sr = SR_S | SR_V;
    cpu.a[7] = 0x3000;
    cpu.pc = 0x1000;
    cpu.prime_prefetch(&mut bus);
    bus.log.clear();

    let cycles = cpu.step_with(&Decoder::new(), &mut bus);

    assert_eq!(cycles, 34);
    assert!(!bus.log[0].0, "the first transaction is a read");
    assert_eq!(bus.log[0].1, 0x1004, "…at the entry PC");
    assert_eq!(
        bus.writes(),
        vec![(0x2FFE, 0x1002), (0x2FFA, SR_S | SR_V), (0x2FFC, 0x0000)],
        "then the frame: PC.lo, SR, PC.hi — stacked PC is opcode + 2"
    );
    assert_eq!(cpu.pc, 0x2004);
}

#[test]
fn trap_uses_vector_32_plus_n_and_stacks_opcode_plus_2() {
    for n in [0u16, 7, 15] {
        let mut bus = RecordingBus::new();
        bus.load(0x1000, &[0x4E40 + n, 0x4E71]);
        let vaddr = (32 + n as u32) * 4;
        bus.put16(vaddr, 0x0000);
        bus.put16(vaddr + 2, 0x2000);
        bus.load(0x2000, &[0x4E71, 0x4E71]);

        let mut cpu = M68k::new();
        cpu.sr = SR_S;
        cpu.a[7] = 0x3000;
        cpu.pc = 0x1000;
        cpu.prime_prefetch(&mut bus);
        bus.log.clear();

        let cycles = cpu.step_with(&Decoder::new(), &mut bus);

        assert_eq!(cycles, 34, "TRAP #{n}");
        assert!(bus.log[0].0, "TRAP #{n}: the first transaction is a write");
        assert_eq!(
            bus.writes(),
            vec![(0x2FFE, 0x1002), (0x2FFA, SR_S), (0x2FFC, 0x0000)],
            "TRAP #{n}: stacked PC is opcode + 2"
        );
        assert_eq!(cpu.pc, 0x2004, "TRAP #{n}: vector {}", 32 + n);
    }
}

#[test]
fn trap_from_user_mode_frames_on_the_ssp() {
    let mut bus = RecordingBus::new();
    bus.load(0x1000, &[0x4E4F, 0x4E71]);
    bus.put16(0x00BC, 0x0000);
    bus.put16(0x00BE, 0x2000);
    bus.load(0x2000, &[0x4E71, 0x4E71]);

    let mut cpu = M68k::new();
    cpu.sr = 0x0000;
    cpu.a[7] = 0x8000;
    cpu.ssp = 0x3000;
    cpu.pc = 0x1000;
    cpu.prime_prefetch(&mut bus);
    bus.log.clear();

    cpu.step_with(&Decoder::new(), &mut bus);

    assert_eq!(
        bus.writes(),
        vec![(0x2FFE, 0x1002), (0x2FFA, 0x0000), (0x2FFC, 0x0000)],
        "the frame is on the SSP, not the USP"
    );
    assert_eq!(cpu.usp, 0x8000, "the USP is untouched");
    assert_eq!(cpu.a[7], 0x2FFA, "a[7] is now the supervisor stack");
}

#[test]
fn rte_from_user_mode_stacks_the_opcode_address_itself() {
    let mut bus = RecordingBus::new();
    bus.load(0x1000, &[0x4E73, 0x4E71]);
    bus.put16(0x0020, 0x0000);
    bus.put16(0x0022, 0x2000);
    bus.load(0x2000, &[0x4E71, 0x4E71]);

    let mut cpu = M68k::new();
    cpu.sr = 0x0000;
    cpu.a[7] = 0x8000;
    cpu.ssp = 0x3000;
    cpu.pc = 0x1000;
    cpu.prime_prefetch(&mut bus);
    bus.log.clear();

    let cycles = cpu.step_with(&Decoder::new(), &mut bus);

    assert_eq!(cycles, 34);
    assert!(bus.log[0].0, "no read precedes the frame");
    assert_eq!(
        bus.writes(),
        vec![(0x2FFE, 0x1000), (0x2FFA, 0x0000), (0x2FFC, 0x0000)],
        "stacked PC is the opcode address, with no bump"
    );
}

#[test]
fn rte_to_an_odd_pc_faults_after_the_pops() {
    let mut bus = RecordingBus::new();
    bus.load(0x1000, &[0x4E73, 0x4E71]);
    bus.put16(0x3000, 0x0000);
    bus.put16(0x3002, 0x0000);
    bus.put16(0x3004, 0x2001);
    bus.put16(0x000C, 0x0000);
    bus.put16(0x000E, 0x4000);
    bus.load(0x4000, &[0x4E71, 0x4E71]);

    let mut cpu = M68k::new();
    cpu.sr = SR_S;
    cpu.a[7] = 0x3000;
    cpu.usp = 0x8000;
    cpu.pc = 0x1000;
    cpu.prime_prefetch(&mut bus);
    bus.log.clear();

    let cycles = cpu.step_with(&Decoder::new(), &mut bus);

    assert_eq!(cycles, 70, "3 pops + the aborted access + the long frame");
    let writes = bus.writes();
    assert_eq!(writes.len(), 7, "the 7-word frame");
    assert_eq!(
        writes[5],
        (0x2FF8, 0x4E60 | 0x10 | 0x2),
        "fc comes from the POPPED S bit: program space, user"
    );
    assert_eq!(writes[4], (0x2FFC, 0x2001), "fault address low word");
    assert_eq!(writes[6], (0x2FFA, 0x0000), "fault address high word");
    assert!(
        !bus.reads().iter().any(|(a, _)| *a == 0x2000),
        "the faulting refill never reached the bus"
    );
    assert_eq!(cpu.pc, 0x4004);
}
