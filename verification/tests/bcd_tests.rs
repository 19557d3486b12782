#![allow(unused_imports, dead_code, unused_mut, unused_variables, clippy::all)]

use m68k::bus::Bus;
use m68k::cpu::{M68k, ADDR_MASK, SR_C, SR_MASK, SR_N, SR_S, SR_T, SR_V, SR_X, SR_Z};
use m68k::decode::Decoder;
use m68k::ea::{ext_words, modes, read, resolve, write_predec_long, Ea, Size};
use m68k::exception::{
    address_error, check_interrupts, entry_cycles, illegal_instruction, take, take_trace, FaultKind, Space,
    ADDRESS_ERROR_TAIL_CYCLES, HALTED_IDLE_CYCLES, IACK_AS_IDLE_CYCLES, INTERRUPT_CYCLES, SHORT_FRAME_ACCESSES,
    SHORT_FRAME_ENTRY_CYCLES, VEC_ADDRESS_ERROR, VEC_AUTOVECTOR_BASE, VEC_BUS_ERROR, VEC_CHK, VEC_DIVIDE_BY_ZERO,
    VEC_ILLEGAL, VEC_LINE_A, VEC_LINE_F, VEC_PRIVILEGE, VEC_TRACE, VEC_TRAPV, VEC_TRAP_BASE,
};
use m68k::flags::{accumulate_z, add_flags, logic_flags, sub_flags};
use m68k::{exception, ea, flags, cpu, ops};
use m68k::ops::bcd::{abcd, sbcd};

pub struct FlatBus {
    pub mem: Vec<u8>,
}

impl Default for FlatBus {
    fn default() -> Self {
        Self::new()
    }
}

impl FlatBus {
    pub fn new() -> Self {
        Self {
            mem: vec![0; 0x10000],
        }
    }

    pub fn put16(&mut self, addr: u32, val: u16) {
        let [hi, lo] = val.to_be_bytes();
        let a = (addr & 0xFFFF) as usize;
        self.mem[a] = hi;
        self.mem[a + 1] = lo;
    }

    pub fn load(&mut self, addr: u32, words: &[u16]) {
        for (i, w) in words.iter().enumerate() {
            self.put16(addr + (i as u32) * 2, *w);
        }
    }
}

impl Bus for FlatBus {
    fn read8(&mut self, addr: u32) -> u8 {
        self.mem[(addr & 0xFFFF) as usize]
    }
    fn read16(&mut self, addr: u32) -> u16 {
        let a = (addr & 0xFFFE) as usize;
        u16::from_be_bytes([self.mem[a], self.mem[a + 1]])
    }
    fn write8(&mut self, addr: u32, val: u8) {
        self.mem[(addr & 0xFFFF) as usize] = val;
    }
    fn write16(&mut self, addr: u32, val: u16) {
        let [hi, lo] = val.to_be_bytes();
        let a = (addr & 0xFFFE) as usize;
        self.mem[a] = hi;
        self.mem[a + 1] = lo;
    }
}

pub struct StrictBus {
    inner: FlatBus,
    pub seen: Vec<u32>,
}

impl StrictBus {
    pub fn new() -> Self {
        Self {
            inner: FlatBus::new(),
            seen: Vec::new(),
        }
    }

    pub fn put16(&mut self, addr: u32, val: u16) {
        self.inner.put16(addr, val);
    }

    pub fn load(&mut self, addr: u32, words: &[u16]) {
        self.inner.load(addr, words);
    }

    pub fn peek16(&self, addr: u32) -> u16 {
        let a = (addr & 0xFFFE) as usize;
        u16::from_be_bytes([self.inner.mem[a], self.inner.mem[a + 1]])
    }

    fn check(&mut self, addr: u32) {
        assert!(
            addr <= ADDR_MASK,
            "the core presented {addr:#010X} to the bus, above the 24-bit \
             address bus: `Bus`'s contract says the core has already masked"
        );
        self.seen.push(addr);
    }
}

impl Bus for StrictBus {
    fn read8(&mut self, addr: u32) -> u8 {
        self.check(addr);
        self.inner.read8(addr)
    }
    fn read16(&mut self, addr: u32) -> u16 {
        self.check(addr);
        self.inner.read16(addr)
    }
    fn write8(&mut self, addr: u32, val: u8) {
        self.check(addr);
        self.inner.write8(addr, val);
    }
    fn write16(&mut self, addr: u32, val: u16) {
        self.check(addr);
        self.inner.write16(addr, val);
    }
}

pub struct RecordingBus {
    pub mem: Vec<u8>,
    pub log: Vec<(bool, u32, u16)>,
}

impl RecordingBus {
    pub fn new() -> Self {
        Self {
            mem: vec![0; 0x10000],
            log: Vec::new(),
        }
    }

    pub fn put16(&mut self, addr: u32, val: u16) {
        let [hi, lo] = val.to_be_bytes();
        let a = (addr & 0xFFFF) as usize;
        self.mem[a] = hi;
        self.mem[a + 1] = lo;
    }

    pub fn load(&mut self, addr: u32, words: &[u16]) {
        for (i, w) in words.iter().enumerate() {
            self.put16(addr + (i as u32) * 2, *w);
        }
    }

    pub fn writes(&self) -> Vec<(u32, u16)> {
        self.log
            .iter()
            .filter(|(w, _, _)| *w)
            .map(|(_, a, v)| (*a, *v))
            .collect()
    }

    #[allow(dead_code)]
    pub fn reads(&self) -> Vec<(u32, u16)> {
        self.log
            .iter()
            .filter(|(w, _, _)| !*w)
            .map(|(_, a, v)| (*a, *v))
            .collect()
    }
}

impl Bus for RecordingBus {
    fn read8(&mut self, addr: u32) -> u8 {
        let v = self.mem[(addr & 0xFFFF) as usize];
        self.log.push((false, addr & 0xFFFF, v as u16));
        v
    }
    fn read16(&mut self, addr: u32) -> u16 {
        let a = (addr & 0xFFFE) as usize;
        let v = u16::from_be_bytes([self.mem[a], self.mem[a + 1]]);
        self.log.push((false, addr & 0xFFFF, v));
        v
    }
    fn write8(&mut self, addr: u32, val: u8) {
        self.mem[(addr & 0xFFFF) as usize] = val;
        self.log.push((true, addr & 0xFFFF, val as u16));
    }
    fn write16(&mut self, addr: u32, val: u16) {
        let [hi, lo] = val.to_be_bytes();
        let a = (addr & 0xFFFE) as usize;
        self.mem[a] = hi;
        self.mem[a + 1] = lo;
        self.log.push((true, addr & 0xFFFF, val));
    }
}

fn run_one(cpu: &mut M68k, bus: &mut impl Bus, words: &[u16], at: u32) -> u32 {
    for (i, w) in words.iter().enumerate() {
        bus.write16(at + 2 * i as u32, *w);
    }
    cpu.pc = at;
    cpu.prime_prefetch(bus);
    let dec = Decoder::new();
    cpu.step_with(&dec, bus)
}

fn cpu_at(sr: u16) -> M68k {
    let mut cpu = M68k::new();
    cpu.sr = sr;
    cpu.a[7] = 0x3000;
    cpu.ssp = 0x3000;
    cpu
}

#[test]
fn abcd_adds_decimal_digits_with_a_carry_between_them() {
    let mut bus = FlatBus::new();
    let mut cpu = cpu_at(SR_S | SR_Z);
    cpu.d[0] = 0x28;
    cpu.d[1] = 0x34;
    let cycles = run_one(&mut cpu, &mut bus, &[0xC101, 0x4E71], 0x1000);
    assert_eq!(cpu.d[0], 0x62);
    assert!(!cpu.ccr_c() && !cpu.ccr_x());
    assert_eq!(cycles, 4 + 2);
}

#[test]
fn abcd_sets_c_and_x_on_a_decimal_carry_out() {
    let mut bus = FlatBus::new();
    let mut cpu = cpu_at(SR_S);
    cpu.d[0] = 0x99;
    cpu.d[1] = 0x01;
    run_one(&mut cpu, &mut bus, &[0xC101, 0x4E71], 0x1000);
    assert_eq!(cpu.d[0], 0x00);
    assert!(cpu.ccr_c() && cpu.ccr_x(), "carry out of the high digit");
}

#[test]
fn abcd_propagates_a_carry_of_two_out_of_the_low_nibble() {
    let mut bus = FlatBus::new();
    let mut cpu = cpu_at(SR_S | SR_X);
    cpu.d[0] = 0x0F;
    cpu.d[1] = 0x0F;
    run_one(&mut cpu, &mut bus, &[0xC101, 0x4E71], 0x1000);
    assert_eq!(cpu.d[0], 0x25);
}

#[test]
fn abcd_sets_v_when_the_fixup_drives_bit_7_high() {
    let mut bus = FlatBus::new();
    let mut cpu = cpu_at(SR_S);
    cpu.d[0] = 0x79;
    cpu.d[1] = 0x09;
    run_one(&mut cpu, &mut bus, &[0xC101, 0x4E71], 0x1000);
    assert_eq!(cpu.d[0], 0x88);
    assert!(!cpu.ccr_v(), "uncorrected 0x82 already had bit 7 set");

    let mut cpu = cpu_at(SR_S);
    cpu.d[0] = 0x74;
    cpu.d[1] = 0x12;
    run_one(&mut cpu, &mut bus, &[0xC101, 0x4E71], 0x1000);
    assert_eq!(cpu.d[0], 0x86);
    assert!(!cpu.ccr_v());

    let mut cpu = cpu_at(SR_S);
    cpu.d[0] = 0x30;
    cpu.d[1] = 0x40;
    run_one(&mut cpu, &mut bus, &[0xC101, 0x4E71], 0x1000);
    assert_eq!(cpu.d[0], 0x70);
    assert!(!cpu.ccr_v());

    let mut cpu = cpu_at(SR_S);
    cpu.d[0] = 0x45;
    cpu.d[1] = 0x35;
    run_one(&mut cpu, &mut bus, &[0xC101, 0x4E71], 0x1000);
    assert_eq!(cpu.d[0], 0x80);
    assert!(cpu.ccr_v(), "fixup drove bit 7 from 0 to 1: V must be set");
}

#[test]
fn sbcd_subtracts_decimal_digits() {
    let mut bus = FlatBus::new();
    let mut cpu = cpu_at(SR_S);
    cpu.d[0] = 0x62;
    cpu.d[1] = 0x34;
    run_one(&mut cpu, &mut bus, &[0x8101, 0x4E71], 0x1000);
    assert_eq!(cpu.d[0], 0x28);
    assert!(!cpu.ccr_c() && !cpu.ccr_x());
}

#[test]
fn sbcd_borrows_across_the_byte() {
    let mut bus = FlatBus::new();
    let mut cpu = cpu_at(SR_S);
    cpu.d[0] = 0x00;
    cpu.d[1] = 0x01;
    run_one(&mut cpu, &mut bus, &[0x8101, 0x4E71], 0x1000);
    assert_eq!(cpu.d[0], 0x99);
    assert!(cpu.ccr_c() && cpu.ccr_x(), "borrow out of the byte");
}

#[test]
fn sbcd_decides_the_high_fixup_from_the_byte_not_the_nibble() {
    let mut bus = FlatBus::new();
    let mut cpu = cpu_at(SR_S);
    cpu.d[0] = 0x10;
    cpu.d[1] = 0x01;
    run_one(&mut cpu, &mut bus, &[0x8101, 0x4E71], 0x1000);
    assert_eq!(cpu.d[0], 0x09, "no -0x60: the byte did not borrow");
    assert!(!cpu.ccr_c());
}

#[test]
fn bcd_z_accumulates_and_never_sets() {
    let mut bus = FlatBus::new();
    let mut cpu = cpu_at(SR_S);
    cpu.d[0] = 0x00;
    cpu.d[1] = 0x00;
    run_one(&mut cpu, &mut bus, &[0xC101, 0x4E71], 0x1000);
    assert_eq!(cpu.d[0], 0);
    assert!(!cpu.ccr_z(), "a zero result must NOT set Z");

    let mut cpu = cpu_at(SR_S | SR_Z);
    cpu.d[0] = 0x00;
    cpu.d[1] = 0x00;
    run_one(&mut cpu, &mut bus, &[0xC101, 0x4E71], 0x1000);
    assert!(cpu.ccr_z());

    let mut cpu = cpu_at(SR_S | SR_Z);
    cpu.d[0] = 0x01;
    cpu.d[1] = 0x00;
    run_one(&mut cpu, &mut bus, &[0xC101, 0x4E71], 0x1000);
    assert!(!cpu.ccr_z());
}

#[test]
fn abcd_and_sbcd_include_x_as_the_incoming_carry() {
    let mut bus = FlatBus::new();
    let mut cpu = cpu_at(SR_S | SR_X);
    cpu.d[0] = 0x10;
    cpu.d[1] = 0x10;
    run_one(&mut cpu, &mut bus, &[0xC101, 0x4E71], 0x1000);
    assert_eq!(cpu.d[0], 0x21, "X added in");

    let mut cpu = cpu_at(SR_S | SR_X);
    cpu.d[0] = 0x20;
    cpu.d[1] = 0x10;
    run_one(&mut cpu, &mut bus, &[0x8101, 0x4E71], 0x1000);
    assert_eq!(cpu.d[0], 0x09, "X borrowed out");
}

#[test]
fn bcd_memory_form_predecrements_both_before_reading() {
    let mut bus = RecordingBus::new();
    bus.put16(0x2000, 0x1234);
    let mut cpu = cpu_at(SR_S);
    cpu.a[3] = 0x2002;
    cpu.prime_prefetch(&mut bus);
    run_one(&mut cpu, &mut bus, &[0x870B, 0x4E71], 0x1000);
    assert_eq!(cpu.a[3], 0x2000, "two decrements");
    let reads: Vec<u32> = bus
        .log
        .iter()
        .filter(|(write, addr, _)| !*write && (0x2000..0x2010).contains(addr))
        .map(|(_, addr, _)| *addr)
        .collect();
    assert_eq!(
        reads,
        vec![0x2001, 0x2000],
        "source first, then destination"
    );
}

#[test]
fn bcd_memory_form_costs_four_accesses_and_two_idle() {
    let mut bus = FlatBus::new();
    bus.put16(0x2000, 0x2828);
    let mut cpu = cpu_at(SR_S);
    cpu.a[1] = 0x2001;
    cpu.a[2] = 0x2002;
    let cycles = run_one(&mut cpu, &mut bus, &[0xC509, 0x4E71], 0x1000);
    assert_eq!(cycles, 4 * 4 + 2);
    assert_eq!(bus.read8(0x2001), 0x56, "0x28 + 0x28");
}

#[test]
fn nbcd_negates_in_tens_complement() {
    let mut bus = FlatBus::new();
    let mut cpu = cpu_at(SR_S);
    cpu.d[0] = 0x01;
    let cycles = run_one(&mut cpu, &mut bus, &[0x4800, 0x4E71], 0x1000);
    assert_eq!(cpu.d[0], 0x99, "ten's complement of 1");
    assert!(cpu.ccr_c() && cpu.ccr_x());
    assert_eq!(cycles, 4 + 2);
}

#[test]
fn nbcd_of_zero_clears_c() {
    let mut bus = FlatBus::new();
    let mut cpu = cpu_at(SR_S | SR_Z);
    cpu.d[0] = 0x00;
    run_one(&mut cpu, &mut bus, &[0x4800, 0x4E71], 0x1000);
    assert_eq!(cpu.d[0], 0x00);
    assert!(!cpu.ccr_c() && !cpu.ccr_x(), "nothing borrowed");
    assert!(cpu.ccr_z(), "Z was already set and the result is zero");
}

#[test]
fn nbcd_with_x_set_borrows_one_more() {
    let mut bus = FlatBus::new();
    let mut cpu = cpu_at(SR_S | SR_X);
    cpu.d[0] = 0x00;
    run_one(&mut cpu, &mut bus, &[0x4800, 0x4E71], 0x1000);
    assert_eq!(cpu.d[0], 0x99);
    assert!(cpu.ccr_c());
}

#[test]
fn nbcd_writes_a_memory_operand_back() {
    let mut bus = FlatBus::new();
    bus.put16(0x2000, 0x2500);
    let mut cpu = cpu_at(SR_S);
    cpu.a[1] = 0x2000;
    let cycles = run_one(&mut cpu, &mut bus, &[0x4811, 0x4E71], 0x1000);
    assert_eq!(bus.read8(0x2000), 0x75, "100 - 25");
    assert_eq!(cycles, 4 * 3);
}

#[test]
fn nbcd_touches_only_the_low_byte() {
    let mut bus = FlatBus::new();
    let mut cpu = cpu_at(SR_S);
    cpu.d[0] = 0xDEAD_BE01;
    run_one(&mut cpu, &mut bus, &[0x4800, 0x4E71], 0x1000);
    assert_eq!(cpu.d[0], 0xDEAD_BE99);
}

#[test]
fn bit_3_not_the_mode_field_selects_the_memory_form() {
    let mut bus = FlatBus::new();
    let mut cpu = cpu_at(SR_S);
    cpu.d[0] = 0x11;
    cpu.d[1] = 0x11;
    cpu.a[1] = 0x2010;
    run_one(&mut cpu, &mut bus, &[0xC101, 0x4E71], 0x1000);
    assert_eq!(cpu.d[0], 0x22);
    assert_eq!(cpu.a[1], 0x2010, "the register form touches no An");
}

#[test]
fn v_is_directional_between_abcd_and_sbcd() {
    let (res, _) = abcd(0x45, 0x35, false);
    let bin = 0x45u8.wrapping_add(0x35);
    assert_eq!(res, 0x80);
    assert_eq!(bin, 0x7A, "uncorrected bit 7 clear");
    assert!(
        (!bin & res) & 0x80 != 0,
        "0 -> 1 transition: ABCD V must be set"
    );

    let (res2, _) = abcd(0x79, 0x09, false);
    let bin2 = 0x79u8.wrapping_add(0x09);
    assert_eq!(res2, 0x88);
    assert_eq!(bin2, 0x82);
    assert!(
        (!bin2 & res2) & 0x80 == 0,
        "both have bit 7: not a 0 -> 1 transition"
    );

    let (sbcd_res, _) = sbcd(0x00, 0x80, false);
    let sbcd_bin = 0x00u8.wrapping_sub(0x80);
    assert_eq!(sbcd_bin, 0x80, "uncorrected bit 7 set");
    assert_eq!(sbcd_res, 0x20, "fixup cleared bit 7");
    assert!(
        (sbcd_bin & !sbcd_res) & 0x80 != 0,
        "1 -> 0 transition: SBCD V must be set"
    );

    let (res, _) = sbcd(0x00, 0x81, false);
    let bin = 0x00u8.wrapping_sub(0x81);
    assert_eq!(bin, 0x7F, "uncorrected bit 7 clear");
    assert!(
        (bin & !res) & 0x80 == 0,
        "no 1 -> 0 transition: V must be clear"
    );
}

#[test]
fn sbcd_sets_v_when_the_fixup_drives_bit_7_low() {
    let mut bus = FlatBus::new();
    let mut cpu = cpu_at(SR_S);
    cpu.d[0] = 0x00;
    cpu.d[1] = 0x80;
    run_one(&mut cpu, &mut bus, &[0x8101, 0x4E71], 0x1000);
    assert_eq!(cpu.d[0] & 0xFF, 0x20, "0x00 - 0x80 decimal = 0x20");
    assert!(cpu.ccr_v(), "fixup drove bit 7 from 1 to 0: V must be set");
}

#[test]
fn abcd_and_sbcd_are_structurally_different_models() {
    assert_eq!(sbcd(0x10, 0x01, false).0, 0x09);
    assert_eq!(abcd(0x28, 0x34, false), abcd(0x34, 0x28, false));
    assert_ne!(sbcd(0x62, 0x34, false), sbcd(0x34, 0x62, false));
}
