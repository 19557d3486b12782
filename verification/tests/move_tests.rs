#![allow(unused_imports, dead_code, unused_mut, unused_variables, clippy::all)]

use m68k::bus::Bus;
use m68k::cpu::{M68k, ADDR_MASK, SR_C, SR_MASK, SR_N, SR_S, SR_T, SR_V, SR_X, SR_Z};
use m68k::decode::Decoder;
use m68k::ea::{ext_words, modes, read, resolve, write_predec_long, Ea, Size};
use m68k::exception::{
    address_error, check_interrupts, entry_cycles, illegal_instruction, take, take_trace, FaultKind, Space,
    ADDRESS_ERROR_TAIL_CYCLES, HALTED_IDLE_CYCLES, IACK_AS_IDLE_CYCLES, INTERRUPT_CYCLES, SHORT_FRAME_ACCESSES,
    SHORT_FRAME_ENTRY_CYCLES, VEC_ADDRESS_ERROR, VEC_AUTOVECTOR_BASE, VEC_BUS_ERROR, VEC_CHK, VEC_DIVIDE_BY_ZERO,
    VEC_ILLEGAL, VEC_LINE_A, VEC_LINE_F, VEC_PRIVILEGE, VEC_TRACE, VEC_TRAPV, VEC_TRAP_BASE,
};
use m68k::flags::{accumulate_z, add_flags, logic_flags, sub_flags};
use m68k::{exception, ea, flags, cpu, ops};

pub struct FlatBus {
    pub mem: Vec<u8>,
}

impl Default for FlatBus {
    fn default() -> Self {
        Self::new()
    }
}

impl FlatBus {
    pub fn new() -> Self {
        Self {
            mem: vec![0; 0x10000],
        }
    }

    pub fn put16(&mut self, addr: u32, val: u16) {
        let [hi, lo] = val.to_be_bytes();
        let a = (addr & 0xFFFF) as usize;
        self.mem[a] = hi;
        self.mem[a + 1] = lo;
    }

    pub fn load(&mut self, addr: u32, words: &[u16]) {
        for (i, w) in words.iter().enumerate() {
            self.put16(addr + (i as u32) * 2, *w);
        }
    }
}

impl Bus for FlatBus {
    fn read8(&mut self, addr: u32) -> u8 {
        self.mem[(addr & 0xFFFF) as usize]
    }
    fn read16(&mut self, addr: u32) -> u16 {
        let a = (addr & 0xFFFE) as usize;
        u16::from_be_bytes([self.mem[a], self.mem[a + 1]])
    }
    fn write8(&mut self, addr: u32, val: u8) {
        self.mem[(addr & 0xFFFF) as usize] = val;
    }
    fn write16(&mut self, addr: u32, val: u16) {
        let [hi, lo] = val.to_be_bytes();
        let a = (addr & 0xFFFE) as usize;
        self.mem[a] = hi;
        self.mem[a + 1] = lo;
    }
}

pub struct StrictBus {
    inner: FlatBus,
    pub seen: Vec<u32>,
}

impl StrictBus {
    pub fn new() -> Self {
        Self {
            inner: FlatBus::new(),
            seen: Vec::new(),
        }
    }

    pub fn put16(&mut self, addr: u32, val: u16) {
        self.inner.put16(addr, val);
    }

    pub fn load(&mut self, addr: u32, words: &[u16]) {
        self.inner.load(addr, words);
    }

    pub fn peek16(&self, addr: u32) -> u16 {
        let a = (addr & 0xFFFE) as usize;
        u16::from_be_bytes([self.inner.mem[a], self.inner.mem[a + 1]])
    }

    fn check(&mut self, addr: u32) {
        assert!(
            addr <= ADDR_MASK,
            "the core presented {addr:#010X} to the bus, above the 24-bit \
             address bus: `Bus`'s contract says the core has already masked"
        );
        self.seen.push(addr);
    }
}

impl Bus for StrictBus {
    fn read8(&mut self, addr: u32) -> u8 {
        self.check(addr);
        self.inner.read8(addr)
    }
    fn read16(&mut self, addr: u32) -> u16 {
        self.check(addr);
        self.inner.read16(addr)
    }
    fn write8(&mut self, addr: u32, val: u8) {
        self.check(addr);
        self.inner.write8(addr, val);
    }
    fn write16(&mut self, addr: u32, val: u16) {
        self.check(addr);
        self.inner.write16(addr, val);
    }
}

pub struct RecordingBus {
    pub mem: Vec<u8>,
    pub log: Vec<(bool, u32, u16)>,
}

impl RecordingBus {
    pub fn new() -> Self {
        Self {
            mem: vec![0; 0x10000],
            log: Vec::new(),
        }
    }

    pub fn put16(&mut self, addr: u32, val: u16) {
        let [hi, lo] = val.to_be_bytes();
        let a = (addr & 0xFFFF) as usize;
        self.mem[a] = hi;
        self.mem[a + 1] = lo;
    }

    pub fn load(&mut self, addr: u32, words: &[u16]) {
        for (i, w) in words.iter().enumerate() {
            self.put16(addr + (i as u32) * 2, *w);
        }
    }

    pub fn writes(&self) -> Vec<(u32, u16)> {
        self.log
            .iter()
            .filter(|(w, _, _)| *w)
            .map(|(_, a, v)| (*a, *v))
            .collect()
    }

    #[allow(dead_code)]
    pub fn reads(&self) -> Vec<(u32, u16)> {
        self.log
            .iter()
            .filter(|(w, _, _)| !*w)
            .map(|(_, a, v)| (*a, *v))
            .collect()
    }
}

impl Bus for RecordingBus {
    fn read8(&mut self, addr: u32) -> u8 {
        let v = self.mem[(addr & 0xFFFF) as usize];
        self.log.push((false, addr & 0xFFFF, v as u16));
        v
    }
    fn read16(&mut self, addr: u32) -> u16 {
        let a = (addr & 0xFFFE) as usize;
        let v = u16::from_be_bytes([self.mem[a], self.mem[a + 1]]);
        self.log.push((false, addr & 0xFFFF, v));
        v
    }
    fn write8(&mut self, addr: u32, val: u8) {
        self.mem[(addr & 0xFFFF) as usize] = val;
        self.log.push((true, addr & 0xFFFF, val as u16));
    }
    fn write16(&mut self, addr: u32, val: u16) {
        let [hi, lo] = val.to_be_bytes();
        let a = (addr & 0xFFFE) as usize;
        self.mem[a] = hi;
        self.mem[a + 1] = lo;
        self.log.push((true, addr & 0xFFFF, val));
    }
}

fn at(bus: &mut impl Bus) -> M68k {
    let mut cpu = M68k::new();
    cpu.sr = m68k::cpu::SR_S;
    cpu.a[7] = 0x3000;
    cpu.pc = 0x1000;
    cpu.prime_prefetch(bus);
    cpu
}

#[test]
fn a_halted_move_fault_costs_only_its_fetches() {
    for (label, prog, lead) in [
        ("source", &[0x3010u16, 0x4E71, 0x4E71][..], 0),
        ("destination", &[0x3080, 0x4E71, 0x4E71][..], 0),
        ("source+ext", &[0x3028, 0x0000, 0x4E71][..], 1),
        ("destination+ext", &[0x3140, 0x0000, 0x4E71][..], 1),
    ] {
        let mut bus = RecordingBus::new();
        bus.load(0x1000, prog);
        bus.put16(0x000C, 0x0000);
        bus.put16(0x000E, 0x2000);
        let mut cpu = M68k::new();
        cpu.sr = m68k::cpu::SR_S;
        cpu.a[0] = 0x4001;
        cpu.a[7] = 0x3001;
        cpu.ssp = 0x3001;
        cpu.pc = 0x1000;
        cpu.prime_prefetch(&mut bus);
        bus.log.clear();

        let cycles = cpu.step_with(&Decoder::new(), &mut bus);

        assert!(cpu.halted, "{label}: an odd frame base halts");
        assert_eq!(bus.writes(), vec![], "{label}: no frame was written");
        assert_eq!(bus.log.len(), lead as usize, "{label}: lead accesses only");
        assert_eq!(
            cycles,
            4 * lead + exception::HALTED_IDLE_CYCLES,
            "{label}: 4 × lead + the halt idle, not the framed 58"
        );
    }
}

#[test]
fn moveq_sign_extends_and_sets_flags() {
    let mut bus = FlatBus::new();
    bus.load(0x1000, &[0x70FF, 0x4E71]);
    let mut cpu = at(&mut bus);
    let dec = Decoder::new();
    let cycles = cpu.step_with(&dec, &mut bus);

    assert_eq!(cpu.d[0], 0xFFFF_FFFF);
    assert!(cpu.ccr_n() && !cpu.ccr_z() && !cpu.ccr_v() && !cpu.ccr_c());
    assert_eq!(cycles, 4);
    assert_eq!(cpu.pc, 0x1006, "one word consumed, queue stays 4 ahead");
}

#[test]
fn move_byte_memory_to_memory_emits_read_write_then_fetch() {
    let mut bus = RecordingBus::new();
    bus.load(0x1000, &[0x1290, 0x4E71, 0x4E71]);
    bus.put16(0x2000, 0xAB00);
    let mut cpu = at(&mut bus);
    cpu.a[0] = 0x2000;
    cpu.a[1] = 0x2100;
    bus.log.clear();

    let dec = Decoder::new();
    let cycles = cpu.step_with(&dec, &mut bus);

    assert_eq!(
        bus.log,
        vec![
            (false, 0x2000, 0xAB),
            (true, 0x2100, 0xAB),
            (false, 0x1004, 0x4E71),
        ],
        "bus order must be r w p0"
    );
    assert_eq!(cycles, 12, "3 accesses, no idle");
}

#[test]
fn predecrement_destination_writes_after_the_final_fetch() {
    let mut bus = RecordingBus::new();
    bus.load(0x1000, &[0x3300, 0x4E71, 0x4E71]);
    let mut cpu = at(&mut bus);
    cpu.d[0] = 0x1234;
    cpu.a[1] = 0x2100;
    bus.log.clear();

    let dec = Decoder::new();
    let cycles = cpu.step_with(&dec, &mut bus);

    assert_eq!(
        bus.log,
        vec![(false, 0x1004, 0x4E71), (true, 0x20FE, 0x1234)],
        "bus order must be p0 w"
    );
    assert_eq!(cpu.a[1], 0x20FE);
    assert_eq!(cycles, 8);
}

#[test]
fn move_long_into_predecrement_writes_low_word_first() {
    let mut bus = RecordingBus::new();
    bus.load(0x1000, &[0x2300, 0x4E71, 0x4E71]);
    let mut cpu = at(&mut bus);
    cpu.d[0] = 0xAAAA_BBBB;
    cpu.a[1] = 0x2100;
    bus.log.clear();

    let dec = Decoder::new();
    cpu.step_with(&dec, &mut bus);

    assert_eq!(
        bus.log,
        vec![
            (false, 0x1004, 0x4E71),
            (true, 0x20FE, 0xBBBB),
            (true, 0x20FC, 0xAAAA),
        ],
        "low word first, then high"
    );
}

#[test]
fn odd_source_raises_an_address_error_without_reading() {
    let mut bus = RecordingBus::new();
    bus.load(0x1000, &[0x3010, 0x4E71]);
    bus.put16(0x000C, 0x0000);
    bus.put16(0x000E, 0x4000);
    bus.load(0x4000, &[0x4E71, 0x4E71]);
    let mut cpu = at(&mut bus);
    cpu.a[0] = 0x2001;
    bus.log.clear();

    let dec = Decoder::new();
    let cycles = cpu.step_with(&dec, &mut bus);

    assert!(
        !bus.reads().iter().any(|&(a, _)| a == 0x2000 || a == 0x2001),
        "the faulting access must never reach the bus"
    );
    assert_eq!(cpu.a[7], 0x3000 - 14, "7-word frame");
    assert_eq!(cpu.pc, 0x4004, "vectored through 3, then refilled");
    assert_eq!(bus.read16(0x2FF4), 0x0000, "fault address high");
    assert_eq!(bus.read16(0x2FF6), 0x2001, "fault address low");
    assert_eq!(bus.read16(0x2FF8), 0x3010, "IR is the opcode");
    assert_eq!(bus.read16(0x2FFE), 0x1002, "stacked PC = opcode + 2");
    assert_eq!(bus.read16(0x2FF2), (0x3010 & 0xFFE0) | 0x10 | 5);
    assert_eq!(
        cycles, ADDRESS_ERROR_TAIL_CYCLES,
        "no fetch precedes the fault, so only the tail"
    );
}

#[test]
fn read_fault_preserves_the_ccr() {
    let mut bus = FlatBus::new();
    bus.load(0x1000, &[0x3010, 0x4E71]);
    bus.put16(0x000E, 0x2000);
    let mut cpu = at(&mut bus);
    cpu.a[0] = 0x2001;
    cpu.sr |= m68k::cpu::SR_C | m68k::cpu::SR_V;
    let before = cpu.sr & 0x1F;

    let dec = Decoder::new();
    cpu.step_with(&dec, &mut bus);
    assert_eq!(cpu.sr & 0x1F, before, "CCR untouched by a read fault");
}

#[test]
fn movea_word_sign_extends_and_leaves_flags_alone() {
    let mut bus = FlatBus::new();
    bus.load(0x1000, &[0x3240, 0x4E71]);
    let mut cpu = at(&mut bus);
    cpu.d[0] = 0x0000_8001;
    cpu.a[1] = 0x1111_1111;
    cpu.sr |= m68k::cpu::SR_C;
    let before = cpu.sr & 0x1F;

    let dec = Decoder::new();
    cpu.step_with(&dec, &mut bus);

    assert_eq!(cpu.a[1], 0xFFFF_8001, "sign-extended");
    assert_eq!(cpu.sr & 0x1F, before, "MOVEA never touches the CCR");
}

#[test]
fn absolute_long_destination_uses_a_queued_extension_word() {
    let mut bus = RecordingBus::new();
    bus.load(0x1000, &[0x13D0, 0x0000, 0x2100, 0x4E71, 0x4E71]);
    bus.put16(0x2000, 0xCD00);
    let mut cpu = at(&mut bus);
    cpu.a[0] = 0x2000;
    bus.log.clear();

    let dec = Decoder::new();
    let cycles = cpu.step_with(&dec, &mut bus);

    assert_eq!(
        bus.log,
        vec![
            (false, 0x2000, 0xCD),
            (false, 0x1004, 0x2100),
            (true, 0x2100, 0xCD),
            (false, 0x1006, 0x4E71),
            (false, 0x1008, 0x4E71),
        ],
        "schedule r p0 w p2 p4"
    );
    assert_eq!(cycles, 20);
    assert_eq!(cpu.pc, 0x100A, "dpc = 6, plus the 4-byte queue lead");
}
