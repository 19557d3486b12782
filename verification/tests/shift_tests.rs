#![allow(unused_imports, dead_code, unused_mut, unused_variables, clippy::all)]

use m68k::bus::Bus;
use m68k::cpu::{M68k, ADDR_MASK, SR_C, SR_MASK, SR_N, SR_S, SR_T, SR_V, SR_X, SR_Z};
use m68k::decode::Decoder;
use m68k::ea::{ext_words, modes, read, resolve, write_predec_long, Ea, Size};
use m68k::exception::{
    address_error, check_interrupts, entry_cycles, illegal_instruction, take, take_trace, FaultKind, Space,
    ADDRESS_ERROR_TAIL_CYCLES, HALTED_IDLE_CYCLES, IACK_AS_IDLE_CYCLES, INTERRUPT_CYCLES, SHORT_FRAME_ACCESSES,
    SHORT_FRAME_ENTRY_CYCLES, VEC_ADDRESS_ERROR, VEC_AUTOVECTOR_BASE, VEC_BUS_ERROR, VEC_CHK, VEC_DIVIDE_BY_ZERO,
    VEC_ILLEGAL, VEC_LINE_A, VEC_LINE_F, VEC_PRIVILEGE, VEC_TRACE, VEC_TRAPV, VEC_TRAP_BASE,
};
use m68k::flags::{accumulate_z, add_flags, logic_flags, sub_flags};
use m68k::{exception, ea, flags, cpu, ops};
use m68k::ops::shift::{asl_overflow, shift, Kind, Out};

pub struct FlatBus {
    pub mem: Vec<u8>,
}

impl Default for FlatBus {
    fn default() -> Self {
        Self::new()
    }
}

impl FlatBus {
    pub fn new() -> Self {
        Self {
            mem: vec![0; 0x10000],
        }
    }

    pub fn put16(&mut self, addr: u32, val: u16) {
        let [hi, lo] = val.to_be_bytes();
        let a = (addr & 0xFFFF) as usize;
        self.mem[a] = hi;
        self.mem[a + 1] = lo;
    }

    pub fn load(&mut self, addr: u32, words: &[u16]) {
        for (i, w) in words.iter().enumerate() {
            self.put16(addr + (i as u32) * 2, *w);
        }
    }
}

impl Bus for FlatBus {
    fn read8(&mut self, addr: u32) -> u8 {
        self.mem[(addr & 0xFFFF) as usize]
    }
    fn read16(&mut self, addr: u32) -> u16 {
        let a = (addr & 0xFFFE) as usize;
        u16::from_be_bytes([self.mem[a], self.mem[a + 1]])
    }
    fn write8(&mut self, addr: u32, val: u8) {
        self.mem[(addr & 0xFFFF) as usize] = val;
    }
    fn write16(&mut self, addr: u32, val: u16) {
        let [hi, lo] = val.to_be_bytes();
        let a = (addr & 0xFFFE) as usize;
        self.mem[a] = hi;
        self.mem[a + 1] = lo;
    }
}

pub struct StrictBus {
    inner: FlatBus,
    pub seen: Vec<u32>,
}

impl StrictBus {
    pub fn new() -> Self {
        Self {
            inner: FlatBus::new(),
            seen: Vec::new(),
        }
    }

    pub fn put16(&mut self, addr: u32, val: u16) {
        self.inner.put16(addr, val);
    }

    pub fn load(&mut self, addr: u32, words: &[u16]) {
        self.inner.load(addr, words);
    }

    pub fn peek16(&self, addr: u32) -> u16 {
        let a = (addr & 0xFFFE) as usize;
        u16::from_be_bytes([self.inner.mem[a], self.inner.mem[a + 1]])
    }

    fn check(&mut self, addr: u32) {
        assert!(
            addr <= ADDR_MASK,
            "the core presented {addr:#010X} to the bus, above the 24-bit \
             address bus: `Bus`'s contract says the core has already masked"
        );
        self.seen.push(addr);
    }
}

impl Bus for StrictBus {
    fn read8(&mut self, addr: u32) -> u8 {
        self.check(addr);
        self.inner.read8(addr)
    }
    fn read16(&mut self, addr: u32) -> u16 {
        self.check(addr);
        self.inner.read16(addr)
    }
    fn write8(&mut self, addr: u32, val: u8) {
        self.check(addr);
        self.inner.write8(addr, val);
    }
    fn write16(&mut self, addr: u32, val: u16) {
        self.check(addr);
        self.inner.write16(addr, val);
    }
}

pub struct RecordingBus {
    pub mem: Vec<u8>,
    pub log: Vec<(bool, u32, u16)>,
}

impl RecordingBus {
    pub fn new() -> Self {
        Self {
            mem: vec![0; 0x10000],
            log: Vec::new(),
        }
    }

    pub fn put16(&mut self, addr: u32, val: u16) {
        let [hi, lo] = val.to_be_bytes();
        let a = (addr & 0xFFFF) as usize;
        self.mem[a] = hi;
        self.mem[a + 1] = lo;
    }

    pub fn load(&mut self, addr: u32, words: &[u16]) {
        for (i, w) in words.iter().enumerate() {
            self.put16(addr + (i as u32) * 2, *w);
        }
    }

    pub fn writes(&self) -> Vec<(u32, u16)> {
        self.log
            .iter()
            .filter(|(w, _, _)| *w)
            .map(|(_, a, v)| (*a, *v))
            .collect()
    }

    #[allow(dead_code)]
    pub fn reads(&self) -> Vec<(u32, u16)> {
        self.log
            .iter()
            .filter(|(w, _, _)| !*w)
            .map(|(_, a, v)| (*a, *v))
            .collect()
    }
}

impl Bus for RecordingBus {
    fn read8(&mut self, addr: u32) -> u8 {
        let v = self.mem[(addr & 0xFFFF) as usize];
        self.log.push((false, addr & 0xFFFF, v as u16));
        v
    }
    fn read16(&mut self, addr: u32) -> u16 {
        let a = (addr & 0xFFFE) as usize;
        let v = u16::from_be_bytes([self.mem[a], self.mem[a + 1]]);
        self.log.push((false, addr & 0xFFFF, v));
        v
    }
    fn write8(&mut self, addr: u32, val: u8) {
        self.mem[(addr & 0xFFFF) as usize] = val;
        self.log.push((true, addr & 0xFFFF, val as u16));
    }
    fn write16(&mut self, addr: u32, val: u16) {
        let [hi, lo] = val.to_be_bytes();
        let a = (addr & 0xFFFE) as usize;
        self.mem[a] = hi;
        self.mem[a + 1] = lo;
        self.log.push((true, addr & 0xFFFF, val));
    }
}

fn at(bus: &mut impl Bus) -> M68k {
    let mut cpu = M68k::new();
    cpu.sr = SR_S;
    cpu.a[7] = 0x3000;
    cpu.pc = 0x1000;
    cpu.prime_prefetch(bus);
    cpu
}

fn one_step_at_a_time(
    kind: Kind,
    left: bool,
    v0: u32,
    count: u32,
    size: Size,
    x0: bool,
) -> Out {
    let m = size.mask();
    let msb = size.msb();
    let mut v = v0 & m;
    let mut x = x0;
    let mut c = false;
    let mut v_flag = false;

    if count == 0 {
        return Out {
            res: v,
            x,
            n: v & msb != 0,
            z: v == 0,
            v: false,
            c: kind == Kind::Rox && x,
        };
    }

    for _ in 0..count {
        let sign_before = v & msb != 0;
        match (kind, left) {
            (Kind::Arith, true) | (Kind::Logic, true) => {
                c = v & msb != 0;
                v = (v << 1) & m;
                x = c;
            }
            (Kind::Arith, false) => {
                c = v & 1 != 0;
                v = (v >> 1) | (v & msb);
                x = c;
            }
            (Kind::Logic, false) => {
                c = v & 1 != 0;
                v >>= 1;
                x = c;
            }
            (Kind::Rox, true) => {
                let x_in = x;
                c = v & msb != 0;
                x = c;
                v = ((v << 1) & m) | x_in as u32;
            }
            (Kind::Rox, false) => {
                let x_in = x;
                c = v & 1 != 0;
                x = c;
                v = (v >> 1) | if x_in { msb } else { 0 };
            }
            (Kind::Rot, true) => {
                c = v & msb != 0;
                v = ((v << 1) & m) | c as u32;
            }
            (Kind::Rot, false) => {
                c = v & 1 != 0;
                v = (v >> 1) | if c { msb } else { 0 };
            }
        }
        if kind == Kind::Arith && (v & msb != 0) != sign_before {
            v_flag = true;
        }
    }

    Out {
        res: v,
        x,
        n: v & msb != 0,
        z: v == 0,
        v: v_flag,
        c,
    }
}

#[test]
fn closed_forms_match_a_per_step_shift() {
    for size in [Size::Byte, Size::Word, Size::Long] {
        let m = size.mask();
        let bits = 8 * size.bytes();
        let values: [u32; 13] = [
            0,
            1,
            2,
            3,
            m,
            m - 1,
            1 << (bits - 1),
            (1 << (bits - 1)) - 1,
            0x55 & m,
            0xAA & m,
            0x1234_5678 & m,
            0x8000_0001 & m,
            0x7FFF_FFFF & m,
        ];
        for tt in 0..4u16 {
            let kind = Kind::from_bits(tt);
            for left in [true, false] {
                for count in 0..64u32 {
                    for &v in &values {
                        for x0 in [false, true] {
                            let a = one_step_at_a_time(kind, left, v, count, size, x0);
                            let b = shift(kind, left, v, count, size, x0);
                            assert!(
                                a.res == b.res
                                    && a.x == b.x
                                    && a.n == b.n
                                    && a.z == b.z
                                    && a.v == b.v
                                    && a.c == b.c,
                                "tt={tt} left={left} size={size:?} v={v:08X} \
                                 count={count} x={x0}: step-by-step gives \
                                 ({:08X},x{},n{},z{},v{},c{}), closed form gives \
                                 ({:08X},x{},n{},z{},v{},c{})",
                                a.res,
                                a.x as u8,
                                a.n as u8,
                                a.z as u8,
                                a.v as u8,
                                a.c as u8,
                                b.res,
                                b.x as u8,
                                b.n as u8,
                                b.z as u8,
                                b.v as u8,
                                b.c as u8,
                            );
                        }
                    }
                }
            }
        }
    }
}

#[test]
fn zero_count_preserves_the_operand_and_reports_x_only_for_rox() {
    let dec = Decoder::new();
    let mut bus = FlatBus::new();
    bus.load(0x1000, &[0xE330, 0x4E71]);
    let mut cpu = at(&mut bus);
    cpu.sr |= SR_X | SR_V;
    cpu.d[0] = 0x1234_5678;
    cpu.d[1] = 0;
    let cycles = cpu.step_with(&dec, &mut bus);
    assert_eq!(cpu.d[0], 0x1234_5678, "the operand is untouched");
    assert!(cpu.ccr_c(), "a zero-length ROX reports X in C");
    assert!(cpu.ccr_x(), "X itself survives");
    assert!(!cpu.ccr_v(), "V is cleared even by a zero-length shift");
    assert_eq!(cycles, 6, "one fetch plus the 2-cycle byte base idle");

    let mut bus = FlatBus::new();
    bus.load(0x1000, &[0xE328, 0x4E71]);
    let mut cpu = at(&mut bus);
    cpu.sr |= SR_X | SR_C;
    cpu.d[0] = 0x1234_5678;
    cpu.d[1] = 0;
    cpu.step_with(&dec, &mut bus);
    assert!(!cpu.ccr_c(), "a zero-length non-ROX shift clears C");
    assert!(cpu.ccr_x(), "X still survives");
}

#[test]
fn asl_overflow_is_a_mid_shift_predicate() {
    let dec = Decoder::new();
    let mut bus = FlatBus::new();
    bus.load(0x1000, &[0xE500, 0x4E71]);
    let mut cpu = at(&mut bus);
    cpu.d[0] = 0x80;
    cpu.step_with(&dec, &mut bus);
    assert_eq!(cpu.d[0], 0x00);
    assert!(cpu.ccr_z() && !cpu.ccr_n(), "both endpoints look positive");
    assert!(cpu.ccr_v(), "but the sign changed on the way");

    assert!(asl_overflow(0x01, 8, 8));
    assert!(asl_overflow(0x01, 40, 8));
    assert!(!asl_overflow(0x00, 40, 8));
    assert!(asl_overflow(0x40, 1, 8));
    assert!(!asl_overflow(0x20, 1, 8));
}

#[test]
fn roxl_rotates_through_x() {
    let dec = Decoder::new();
    let mut bus = FlatBus::new();
    bus.load(0x1000, &[0xE310, 0x4E71]);
    let mut cpu = at(&mut bus);
    cpu.sr |= SR_X;
    cpu.d[0] = 0x80;
    cpu.step_with(&dec, &mut bus);
    assert_eq!(cpu.d[0] & 0xFF, 0x01, "X came in at the bottom");
    assert!(cpu.ccr_c() && cpu.ccr_x(), "the old sign bit went out to X");

    let mut bus = FlatBus::new();
    bus.load(0x1000, &[0xE330, 0x4E71]);
    let mut cpu = at(&mut bus);
    cpu.d[0] = 0xA5;
    cpu.d[1] = 9;
    cpu.step_with(&dec, &mut bus);
    assert_eq!(cpu.d[0] & 0xFF, 0xA5);
    assert!(!cpu.ccr_x(), "X round-trips too, from its cleared start");
}

#[test]
fn a_count_past_the_operand_width_does_not_panic() {
    let dec = Decoder::new();
    for (op, name) in [
        (0xE3A0u16, "ASL.l D1,D0"),
        (0xE2A0, "ASR.l D1,D0"),
        (0xE3A8, "LSL.l D1,D0"),
        (0xE2A8, "LSR.l D1,D0"),
        (0xE3B0, "ROXL.l D1,D0"),
        (0xE3B8, "ROL.l D1,D0"),
    ] {
        for count in [31u32, 32, 33, 63, 64, 0xFFFF_FFFF] {
            let mut bus = FlatBus::new();
            bus.load(0x1000, &[op, 0x4E71]);
            let mut cpu = at(&mut bus);
            cpu.d[0] = 0x8765_4321;
            cpu.d[1] = count;
            let cycles = cpu.step_with(&dec, &mut bus);
            assert_eq!(
                cycles,
                4 + 4 + 2 * (count & 63),
                "{name} with count {count}"
            );
        }
    }
}

#[test]
fn asr_saturates_to_the_sign() {
    let dec = Decoder::new();
    let mut bus = FlatBus::new();
    bus.load(0x1000, &[0xE220, 0x4E71]);
    let mut cpu = at(&mut bus);
    cpu.d[0] = 0x80;
    cpu.d[1] = 20;
    cpu.step_with(&dec, &mut bus);
    assert_eq!(cpu.d[0] & 0xFF, 0xFF, "a negative byte saturates to -1");
    assert!(cpu.ccr_c(), "the last bit out was a one");
    assert!(!cpu.ccr_v(), "ASR never sets V");
}

#[test]
fn a_plain_rotate_leaves_x_alone() {
    let dec = Decoder::new();

    let mut bus = FlatBus::new();
    bus.load(0x1000, &[0xE218, 0x4E71]);
    let mut cpu = at(&mut bus);
    cpu.sr |= SR_X;
    cpu.d[0] = 0x02;
    cpu.step_with(&dec, &mut bus);
    assert_eq!(cpu.d[0] & 0xFF, 0x01);
    assert!(!cpu.ccr_c(), "bit 0 was clear");
    assert!(cpu.ccr_x(), "ROR does not touch X");

    let mut bus = FlatBus::new();
    bus.load(0x1000, &[0xE208, 0x4E71]);
    let mut cpu = at(&mut bus);
    cpu.sr |= SR_X;
    cpu.d[0] = 0x02;
    cpu.step_with(&dec, &mut bus);
    assert!(!cpu.ccr_x(), "LSR sets X from C, which is clear here");
}

#[test]
fn the_memory_form_is_a_word_read_modify_write() {
    let dec = Decoder::new();
    let mut bus = RecordingBus::new();
    bus.load(0x1000, &[0xE1D0, 0x4E71, 0x4E71]);
    bus.put16(0x2000, 0x4001);
    let mut cpu = at(&mut bus);
    cpu.a[0] = 0x2000;
    bus.log.clear();

    let cycles = cpu.step_with(&dec, &mut bus);

    assert_eq!(cycles, 12, "three accesses, no idle");
    assert!(cpu.ccr_n() && cpu.ccr_v(), "0x4001 -> 0x8002 changes sign");
    assert!(!cpu.ccr_c(), "bit 15 of 0x4001 is clear");
    assert_eq!(
        bus.log,
        vec![
            (false, 0x2000, 0x4001),
            (false, 0x1004, 0x4E71),
            (true, 0x2000, 0x8002),
        ]
    );
    assert_eq!(bus.read16(0x2000), 0x8002);
}

#[test]
fn an_immediate_count_of_zero_means_eight() {
    let dec = Decoder::new();
    let mut bus = FlatBus::new();
    bus.load(0x1000, &[0xE100, 0x4E71]);
    let mut cpu = at(&mut bus);
    cpu.d[0] = 0x0000_00FF;
    let cycles = cpu.step_with(&dec, &mut bus);
    assert_eq!(cpu.d[0], 0x0000_0000, "shifted out entirely");
    assert!(cpu.ccr_c(), "the last bit out was a one");
    assert_eq!(cycles, 4 + 2 + 2 * 8);
}

#[test]
fn the_type_field_is_bits_four_and_three() {
    let dec = Decoder::new();

    let mut bus = FlatBus::new();
    bus.load(0x1000, &[0xE320, 0x4E71]);
    let mut cpu = at(&mut bus);
    cpu.d[0] = 0x40;
    cpu.d[1] = 1;
    cpu.step_with(&dec, &mut bus);
    assert!(cpu.ccr_v(), "0xE320 must be ASL");

    let mut bus = FlatBus::new();
    bus.load(0x1000, &[0xE328, 0x4E71]);
    let mut cpu = at(&mut bus);
    cpu.sr |= SR_V;
    cpu.d[0] = 0x40;
    cpu.d[1] = 1;
    cpu.step_with(&dec, &mut bus);
    assert!(!cpu.ccr_v(), "0xE328 must be LSL, which clears V");
}
