#![allow(unused_imports, dead_code, unused_mut, unused_variables, clippy::all)]

use m68k::bus::Bus;
use m68k::cpu::{M68k, ADDR_MASK, SR_C, SR_MASK, SR_N, SR_S, SR_T, SR_V, SR_X, SR_Z};
use m68k::decode::Decoder;
use m68k::ea::{ext_words, modes, read, resolve, write_predec_long, Ea, Size};
use m68k::exception::{
    address_error, check_interrupts, entry_cycles, illegal_instruction, take, take_trace, FaultKind, Space,
    ADDRESS_ERROR_TAIL_CYCLES, HALTED_IDLE_CYCLES, IACK_AS_IDLE_CYCLES, INTERRUPT_CYCLES, SHORT_FRAME_ACCESSES,
    SHORT_FRAME_ENTRY_CYCLES, VEC_ADDRESS_ERROR, VEC_AUTOVECTOR_BASE, VEC_BUS_ERROR, VEC_CHK, VEC_DIVIDE_BY_ZERO,
    VEC_ILLEGAL, VEC_LINE_A, VEC_LINE_F, VEC_PRIVILEGE, VEC_TRACE, VEC_TRAPV, VEC_TRAP_BASE,
};
use m68k::flags::{accumulate_z, add_flags, logic_flags, sub_flags};
use m68k::{exception, ea, flags, cpu, ops};

pub struct FlatBus {
    pub mem: Vec<u8>,
}

impl Default for FlatBus {
    fn default() -> Self {
        Self::new()
    }
}

impl FlatBus {
    pub fn new() -> Self {
        Self {
            mem: vec![0; 0x10000],
        }
    }

    pub fn put16(&mut self, addr: u32, val: u16) {
        let [hi, lo] = val.to_be_bytes();
        let a = (addr & 0xFFFF) as usize;
        self.mem[a] = hi;
        self.mem[a + 1] = lo;
    }

    pub fn load(&mut self, addr: u32, words: &[u16]) {
        for (i, w) in words.iter().enumerate() {
            self.put16(addr + (i as u32) * 2, *w);
        }
    }
}

impl Bus for FlatBus {
    fn read8(&mut self, addr: u32) -> u8 {
        self.mem[(addr & 0xFFFF) as usize]
    }
    fn read16(&mut self, addr: u32) -> u16 {
        let a = (addr & 0xFFFE) as usize;
        u16::from_be_bytes([self.mem[a], self.mem[a + 1]])
    }
    fn write8(&mut self, addr: u32, val: u8) {
        self.mem[(addr & 0xFFFF) as usize] = val;
    }
    fn write16(&mut self, addr: u32, val: u16) {
        let [hi, lo] = val.to_be_bytes();
        let a = (addr & 0xFFFE) as usize;
        self.mem[a] = hi;
        self.mem[a + 1] = lo;
    }
}

pub struct StrictBus {
    inner: FlatBus,
    pub seen: Vec<u32>,
}

impl StrictBus {
    pub fn new() -> Self {
        Self {
            inner: FlatBus::new(),
            seen: Vec::new(),
        }
    }

    pub fn put16(&mut self, addr: u32, val: u16) {
        self.inner.put16(addr, val);
    }

    pub fn load(&mut self, addr: u32, words: &[u16]) {
        self.inner.load(addr, words);
    }

    pub fn peek16(&self, addr: u32) -> u16 {
        let a = (addr & 0xFFFE) as usize;
        u16::from_be_bytes([self.inner.mem[a], self.inner.mem[a + 1]])
    }

    fn check(&mut self, addr: u32) {
        assert!(
            addr <= ADDR_MASK,
            "the core presented {addr:#010X} to the bus, above the 24-bit \
             address bus: `Bus`'s contract says the core has already masked"
        );
        self.seen.push(addr);
    }
}

impl Bus for StrictBus {
    fn read8(&mut self, addr: u32) -> u8 {
        self.check(addr);
        self.inner.read8(addr)
    }
    fn read16(&mut self, addr: u32) -> u16 {
        self.check(addr);
        self.inner.read16(addr)
    }
    fn write8(&mut self, addr: u32, val: u8) {
        self.check(addr);
        self.inner.write8(addr, val);
    }
    fn write16(&mut self, addr: u32, val: u16) {
        self.check(addr);
        self.inner.write16(addr, val);
    }
}

pub struct RecordingBus {
    pub mem: Vec<u8>,
    pub log: Vec<(bool, u32, u16)>,
}

impl RecordingBus {
    pub fn new() -> Self {
        Self {
            mem: vec![0; 0x10000],
            log: Vec::new(),
        }
    }

    pub fn put16(&mut self, addr: u32, val: u16) {
        let [hi, lo] = val.to_be_bytes();
        let a = (addr & 0xFFFF) as usize;
        self.mem[a] = hi;
        self.mem[a + 1] = lo;
    }

    pub fn load(&mut self, addr: u32, words: &[u16]) {
        for (i, w) in words.iter().enumerate() {
            self.put16(addr + (i as u32) * 2, *w);
        }
    }

    pub fn writes(&self) -> Vec<(u32, u16)> {
        self.log
            .iter()
            .filter(|(w, _, _)| *w)
            .map(|(_, a, v)| (*a, *v))
            .collect()
    }

    #[allow(dead_code)]
    pub fn reads(&self) -> Vec<(u32, u16)> {
        self.log
            .iter()
            .filter(|(w, _, _)| !*w)
            .map(|(_, a, v)| (*a, *v))
            .collect()
    }
}

impl Bus for RecordingBus {
    fn read8(&mut self, addr: u32) -> u8 {
        let v = self.mem[(addr & 0xFFFF) as usize];
        self.log.push((false, addr & 0xFFFF, v as u16));
        v
    }
    fn read16(&mut self, addr: u32) -> u16 {
        let a = (addr & 0xFFFE) as usize;
        let v = u16::from_be_bytes([self.mem[a], self.mem[a + 1]]);
        self.log.push((false, addr & 0xFFFF, v));
        v
    }
    fn write8(&mut self, addr: u32, val: u8) {
        self.mem[(addr & 0xFFFF) as usize] = val;
        self.log.push((true, addr & 0xFFFF, val as u16));
    }
    fn write16(&mut self, addr: u32, val: u16) {
        let [hi, lo] = val.to_be_bytes();
        let a = (addr & 0xFFFE) as usize;
        self.mem[a] = hi;
        self.mem[a + 1] = lo;
        self.log.push((true, addr & 0xFFFF, val));
    }
}

#[test]
fn control_modes_are_the_seven_addressable_without_stepping() {
    let want: &[(u16, u16)] = &[
        (2, 0),
        (2, 1),
        (2, 2),
        (2, 3),
        (2, 4),
        (2, 5),
        (2, 6),
        (2, 7),
        (5, 0),
        (5, 1),
        (5, 2),
        (5, 3),
        (5, 4),
        (5, 5),
        (5, 6),
        (5, 7),
        (6, 0),
        (6, 1),
        (6, 2),
        (6, 3),
        (6, 4),
        (6, 5),
        (6, 6),
        (6, 7),
        (7, 0),
        (7, 1),
        (7, 2),
        (7, 3),
    ];
    for mode in 0u16..8 {
        for reg in 0u16..8 {
            let expected = want.contains(&(mode, reg));
            assert_eq!(
                modes::control(mode, reg),
                expected,
                "control({mode},{reg}) should be {expected}"
            );
        }
    }
    assert_eq!(want.len(), 28);
    assert!(!modes::control(0, 0), "Dn is not control");
    assert!(!modes::control(1, 0), "An is not control");
    assert!(!modes::control(3, 0), "(An)+ is not control");
    assert!(!modes::control(4, 0), "-(An) is not control");
    assert!(!modes::control(7, 4), "#imm is not control");
}

#[test]
fn byte_step_through_a7_is_two() {
    assert_eq!(Size::Byte.step(0), 1);
    assert_eq!(Size::Byte.step(7), 2);
    assert_eq!(Size::Word.step(7), 2);
    assert_eq!(Size::Long.step(7), 4);
}

#[test]
fn predecrement_commits_before_the_address_is_used() {
    let mut cpu = M68k::new();
    cpu.a[3] = 0x1000;
    let ea = resolve(&mut cpu, 4, 3, Size::Long, &[], 0);
    assert_eq!(ea, Ea::Mem(0x0FFC));
    assert_eq!(cpu.a[3], 0x0FFC);
}

#[test]
fn postincrement_commits_and_yields_the_old_address() {
    let mut cpu = M68k::new();
    cpu.a[3] = 0x1000;
    let ea = resolve(&mut cpu, 3, 3, Size::Word, &[], 0);
    assert_eq!(ea, Ea::Mem(0x1000));
    assert_eq!(cpu.a[3], 0x1002);
}

#[test]
fn pc_relative_displacement_is_from_the_extension_word() {
    let mut cpu = M68k::new();
    let ea = resolve(&mut cpu, 7, 2, Size::Word, &[0x0010], 0x1002);
    assert_eq!(ea, Ea::Mem(0x1012));
}

#[test]
fn absolute_long_joins_two_extension_words() {
    let mut cpu = M68k::new();
    let ea = resolve(&mut cpu, 7, 1, Size::Word, &[0x00FF, 0x1234], 0);
    assert_eq!(ea, Ea::Mem(0x00FF_1234));
}

#[test]
fn indexed_sign_extends_a_word_index() {
    let mut cpu = M68k::new();
    cpu.a[1] = 0x2000;
    cpu.d[2] = 0x0000_FFFE;
    let ea = resolve(&mut cpu, 6, 1, Size::Word, &[0x2004], 0);
    assert_eq!(ea, Ea::Mem(0x2002), "0x2000 - 2 + 4");
}

#[test]
fn long_write_is_high_word_first_except_predecrement() {
    let mut cpu = M68k::new();

    let mut bus = RecordingBus::new();
    m68k::ea::write(&mut cpu, &mut bus, Ea::Mem(0x2000), Size::Long, 0xAAAA_BBBB);
    assert_eq!(bus.writes(), vec![(0x2000, 0xAAAA), (0x2002, 0xBBBB)]);

    let mut bus = RecordingBus::new();
    write_predec_long(&mut bus, 0x2000, 0xAAAA_BBBB);
    assert_eq!(bus.writes(), vec![(0x2002, 0xBBBB), (0x2000, 0xAAAA)]);
}

#[test]
fn byte_write_to_a_data_register_preserves_upper_bits() {
    let mut cpu = M68k::new();
    let mut bus = FlatBus::new();
    cpu.d[0] = 0x1234_5678;
    m68k::ea::write(&mut cpu, &mut bus, Ea::DataReg(0), Size::Byte, 0xAB);
    assert_eq!(cpu.d[0], 0x1234_56AB);
    m68k::ea::write(&mut cpu, &mut bus, Ea::DataReg(0), Size::Word, 0xCDEF);
    assert_eq!(cpu.d[0], 0x1234_CDEF);
}

#[test]
fn ext_words_per_mode() {
    assert_eq!(ext_words(2, 0, Size::Word), 0);
    assert_eq!(ext_words(5, 0, Size::Word), 1);
    assert_eq!(ext_words(6, 0, Size::Word), 1);
    assert_eq!(ext_words(7, 0, Size::Word), 1);
    assert_eq!(ext_words(7, 1, Size::Word), 2);
    assert_eq!(ext_words(7, 4, Size::Byte), 1);
    assert_eq!(ext_words(7, 4, Size::Long), 2);
}
