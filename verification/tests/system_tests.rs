#![allow(unused_imports, dead_code, unused_mut, unused_variables, clippy::all)]

use m68k::bus::Bus;
use m68k::cpu::{M68k, ADDR_MASK, SR_C, SR_MASK, SR_N, SR_S, SR_T, SR_V, SR_X, SR_Z};
use m68k::decode::Decoder;
use m68k::ea::{ext_words, modes, read, resolve, write_predec_long, Ea, Size};
use m68k::exception::{
    address_error, check_interrupts, entry_cycles, illegal_instruction, take, take_trace, FaultKind, Space,
    ADDRESS_ERROR_TAIL_CYCLES, HALTED_IDLE_CYCLES, IACK_AS_IDLE_CYCLES, INTERRUPT_CYCLES, SHORT_FRAME_ACCESSES,
    SHORT_FRAME_ENTRY_CYCLES, VEC_ADDRESS_ERROR, VEC_AUTOVECTOR_BASE, VEC_BUS_ERROR, VEC_CHK, VEC_DIVIDE_BY_ZERO,
    VEC_ILLEGAL, VEC_LINE_A, VEC_LINE_F, VEC_PRIVILEGE, VEC_TRACE, VEC_TRAPV, VEC_TRAP_BASE,
};
use m68k::flags::{accumulate_z, add_flags, logic_flags, sub_flags};
use m68k::{exception, ea, flags, cpu, ops};
use m68k::ops::system::{idle_lead, move_to_ccr_value};

pub struct FlatBus {
    pub mem: Vec<u8>,
}

impl Default for FlatBus {
    fn default() -> Self {
        Self::new()
    }
}

impl FlatBus {
    pub fn new() -> Self {
        Self {
            mem: vec![0; 0x10000],
        }
    }

    pub fn put16(&mut self, addr: u32, val: u16) {
        let [hi, lo] = val.to_be_bytes();
        let a = (addr & 0xFFFF) as usize;
        self.mem[a] = hi;
        self.mem[a + 1] = lo;
    }

    pub fn load(&mut self, addr: u32, words: &[u16]) {
        for (i, w) in words.iter().enumerate() {
            self.put16(addr + (i as u32) * 2, *w);
        }
    }
}

impl Bus for FlatBus {
    fn read8(&mut self, addr: u32) -> u8 {
        self.mem[(addr & 0xFFFF) as usize]
    }
    fn read16(&mut self, addr: u32) -> u16 {
        let a = (addr & 0xFFFE) as usize;
        u16::from_be_bytes([self.mem[a], self.mem[a + 1]])
    }
    fn write8(&mut self, addr: u32, val: u8) {
        self.mem[(addr & 0xFFFF) as usize] = val;
    }
    fn write16(&mut self, addr: u32, val: u16) {
        let [hi, lo] = val.to_be_bytes();
        let a = (addr & 0xFFFE) as usize;
        self.mem[a] = hi;
        self.mem[a + 1] = lo;
    }
}

pub struct StrictBus {
    inner: FlatBus,
    pub seen: Vec<u32>,
}

impl StrictBus {
    pub fn new() -> Self {
        Self {
            inner: FlatBus::new(),
            seen: Vec::new(),
        }
    }

    pub fn put16(&mut self, addr: u32, val: u16) {
        self.inner.put16(addr, val);
    }

    pub fn load(&mut self, addr: u32, words: &[u16]) {
        self.inner.load(addr, words);
    }

    pub fn peek16(&self, addr: u32) -> u16 {
        let a = (addr & 0xFFFE) as usize;
        u16::from_be_bytes([self.inner.mem[a], self.inner.mem[a + 1]])
    }

    fn check(&mut self, addr: u32) {
        assert!(
            addr <= ADDR_MASK,
            "the core presented {addr:#010X} to the bus, above the 24-bit \
             address bus: `Bus`'s contract says the core has already masked"
        );
        self.seen.push(addr);
    }
}

impl Bus for StrictBus {
    fn read8(&mut self, addr: u32) -> u8 {
        self.check(addr);
        self.inner.read8(addr)
    }
    fn read16(&mut self, addr: u32) -> u16 {
        self.check(addr);
        self.inner.read16(addr)
    }
    fn write8(&mut self, addr: u32, val: u8) {
        self.check(addr);
        self.inner.write8(addr, val);
    }
    fn write16(&mut self, addr: u32, val: u16) {
        self.check(addr);
        self.inner.write16(addr, val);
    }
}

pub struct RecordingBus {
    pub mem: Vec<u8>,
    pub log: Vec<(bool, u32, u16)>,
}

impl RecordingBus {
    pub fn new() -> Self {
        Self {
            mem: vec![0; 0x10000],
            log: Vec::new(),
        }
    }

    pub fn put16(&mut self, addr: u32, val: u16) {
        let [hi, lo] = val.to_be_bytes();
        let a = (addr & 0xFFFF) as usize;
        self.mem[a] = hi;
        self.mem[a + 1] = lo;
    }

    pub fn load(&mut self, addr: u32, words: &[u16]) {
        for (i, w) in words.iter().enumerate() {
            self.put16(addr + (i as u32) * 2, *w);
        }
    }

    pub fn writes(&self) -> Vec<(u32, u16)> {
        self.log
            .iter()
            .filter(|(w, _, _)| *w)
            .map(|(_, a, v)| (*a, *v))
            .collect()
    }

    #[allow(dead_code)]
    pub fn reads(&self) -> Vec<(u32, u16)> {
        self.log
            .iter()
            .filter(|(w, _, _)| !*w)
            .map(|(_, a, v)| (*a, *v))
            .collect()
    }
}

impl Bus for RecordingBus {
    fn read8(&mut self, addr: u32) -> u8 {
        let v = self.mem[(addr & 0xFFFF) as usize];
        self.log.push((false, addr & 0xFFFF, v as u16));
        v
    }
    fn read16(&mut self, addr: u32) -> u16 {
        let a = (addr & 0xFFFE) as usize;
        let v = u16::from_be_bytes([self.mem[a], self.mem[a + 1]]);
        self.log.push((false, addr & 0xFFFF, v));
        v
    }
    fn write8(&mut self, addr: u32, val: u8) {
        self.mem[(addr & 0xFFFF) as usize] = val;
        self.log.push((true, addr & 0xFFFF, val as u16));
    }
    fn write16(&mut self, addr: u32, val: u16) {
        let [hi, lo] = val.to_be_bytes();
        let a = (addr & 0xFFFE) as usize;
        self.mem[a] = hi;
        self.mem[a + 1] = lo;
        self.log.push((true, addr & 0xFFFF, val));
    }
}

fn at(bus: &mut impl Bus) -> M68k {
    let mut cpu = M68k::new();
    cpu.sr = SR_S;
    cpu.a[7] = 0x3000;
    cpu.pc = 0x1000;
    cpu.prime_prefetch(bus);
    cpu
}

#[test]
fn movem_l_predecrement_descends_and_stores_the_entry_a7() {
    let mut bus = RecordingBus::new();
    bus.load(0x1000, &[0x48E7, 0xFFFF, 0x4E71]);
    let mut cpu = at(&mut bus);
    for i in 0..8 {
        cpu.d[i] = 0xD000_0000 | i as u32;
        cpu.a[i] = 0xA000_0000 | i as u32;
    }
    cpu.a[7] = 0x3000;
    cpu.ssp = 0x3000;
    bus.log.clear();

    let dec = Decoder::new();
    cpu.step_with(&dec, &mut bus);

    assert_eq!(cpu.a[7], 0x3000 - 64, "A7 drops by 16 longs");

    assert_eq!(
        bus.read16(0x3000 - 4),
        0x0000,
        "stacked A7 high word is the entry SP"
    );
    assert_eq!(
        bus.read16(0x3000 - 2),
        0x3000,
        "stacked A7 low word is the entry SP, not SP-4"
    );
    assert_eq!(bus.read16(0x3000 - 64), 0xD000);
    assert_eq!(bus.read16(0x3000 - 62), 0x0000);

    let writes = bus.writes();
    assert_eq!(writes.len(), 32, "16 longs = 32 word writes");
    assert_eq!(
        writes[0],
        (0x3000 - 2, 0x3000),
        "first write is the LOW word of the highest long"
    );
    assert_eq!(
        writes[1],
        (0x3000 - 4, 0x0000),
        "then its high word, at the lower address"
    );
    assert_eq!(writes[2].0, 0x3000 - 6, "the next long descends");
}

#[test]
fn movem_w_to_registers_ascends_sign_extends_and_reads_one_extra() {
    let mut bus = RecordingBus::new();
    bus.load(0x1000, &[0x4C90, 0x000F, 0x4E71]);
    bus.load(0x2000, &[0x0001, 0x8002, 0x0003, 0xFFFC, 0xDEAD]);
    let mut cpu = at(&mut bus);
    cpu.a[0] = 0x2000;
    for i in 0..4 {
        cpu.d[i] = 0x1111_0000;
    }
    bus.log.clear();

    let dec = Decoder::new();
    let cycles = cpu.step_with(&dec, &mut bus);

    assert_eq!(cpu.d[0], 0x0000_0001, "ascending: D0 takes the first word");
    assert_eq!(
        cpu.d[1], 0xFFFF_8002,
        "each word is SIGN-EXTENDED to 32 bits"
    );
    assert_eq!(cpu.d[2], 0x0000_0003);
    assert_eq!(cpu.d[3], 0xFFFF_FFFC);

    let reads: Vec<u32> = bus.reads().iter().map(|r| r.0).collect();
    assert!(
        reads.contains(&0x2008),
        "the to-registers direction reads one extra word past the list, \
         at base + count*size; reads were {reads:02X?}"
    );
    assert_eq!(cycles, 4 * (2 + 4 + 1), "12 cycles of base plus 4 per word");
}

#[test]
fn movem_w_postincrement_advances_by_the_transfers_only() {
    let mut bus = FlatBus::new();
    bus.load(0x1000, &[0x4C98, 0x0007, 0x4E71]);
    bus.load(0x2000, &[0x1234, 0x5678, 0x9ABC, 0xDEAD]);
    let mut cpu = at(&mut bus);
    cpu.a[0] = 0x2000;

    let dec = Decoder::new();
    cpu.step_with(&dec, &mut bus);

    assert_eq!(cpu.d[0], 0x0000_1234);
    assert_eq!(cpu.d[2], 0xFFFF_9ABC);
    assert_eq!(
        cpu.a[0], 0x2006,
        "3 words = +6; the discarded read at 0x2006 does not advance A0"
    );
}

#[test]
fn movep_w_writes_alternate_bytes_most_significant_first() {
    let mut bus = RecordingBus::new();
    bus.load(0x1000, &[0x0188, 0x0010, 0x4E71]);
    let mut cpu = at(&mut bus);
    cpu.a[0] = 0x2000;
    cpu.d[0] = 0x1234_ABCD;
    bus.log.clear();

    let dec = Decoder::new();
    let cycles = cpu.step_with(&dec, &mut bus);

    let writes = bus.writes();
    assert_eq!(
        writes.len(),
        2,
        "MOVEP.w is two BYTE accesses, not one word"
    );
    assert_eq!(writes[0], (0x2010, 0xAB), "most-significant byte first");
    assert_eq!(writes[1], (0x2012, 0xCD), "then +2, not +1");
    assert_eq!(cycles, 16);
}

#[test]
fn movep_l_reads_four_alternate_bytes() {
    let mut bus = FlatBus::new();
    bus.load(0x1000, &[0x0149, 0x0002, 0x4E71]);
    bus.put16(0x2002, 0xA8FF);
    bus.put16(0x2004, 0x4FFF);
    bus.put16(0x2006, 0xFCFF);
    bus.put16(0x2008, 0xBCFF);
    let mut cpu = at(&mut bus);
    cpu.a[1] = 0x2000;

    let dec = Decoder::new();
    let cycles = cpu.step_with(&dec, &mut bus);

    assert_eq!(cpu.d[0], 0xA84F_FCBC, "bytes at +0,+2,+4,+6, MSB first");
    assert_eq!(cycles, 24);
}

#[test]
fn movep_w_to_register_merges_into_the_low_half() {
    let mut bus = FlatBus::new();
    bus.load(0x1000, &[0x0109, 0x0000, 0x4E71]);
    bus.put16(0x2000, 0x11FF);
    bus.put16(0x2002, 0x22FF);
    let mut cpu = at(&mut bus);
    cpu.a[1] = 0x2000;
    cpu.d[0] = 0xAAAA_5555;

    let dec = Decoder::new();
    cpu.step_with(&dec, &mut bus);

    assert_eq!(cpu.d[0], 0xAAAA_1122, "the upper 16 bits are preserved");
}

#[test]
fn link_a7_pushes_the_entry_stack_pointer() {
    let mut bus = FlatBus::new();
    bus.load(0x1000, &[0x4E57, 0xFFF0, 0x4E71]);
    let mut cpu = at(&mut bus);
    cpu.a[7] = 0x3000;
    cpu.ssp = 0x3000;

    let dec = Decoder::new();
    let cycles = cpu.step_with(&dec, &mut bus);

    assert_eq!(
        bus.read16(0x2FFE),
        0x3000,
        "LINK A7 pushes the ENTRY SP, not SP-4"
    );
    assert_eq!(cpu.a[7], 0x2FFC - 16);
    assert_eq!(cpu.ssp, cpu.a[7], "shadow SSP is kept coherent by sync_sp");
    assert_eq!(cycles, 16);
}

#[test]
fn unlk_a7_leaves_sp_holding_the_popped_value() {
    let mut bus = FlatBus::new();
    bus.load(0x1000, &[0x4E5F, 0x4E71]);
    bus.put16(0x3000, 0x0001);
    bus.put16(0x3002, 0x2340);
    let mut cpu = at(&mut bus);
    cpu.a[7] = 0x3000;
    cpu.ssp = 0x3000;

    let dec = Decoder::new();
    let cycles = cpu.step_with(&dec, &mut bus);

    assert_eq!(
        cpu.a[7], 0x0001_2340,
        "UNLK A7 ends with the popped value, not old_A7 + 4"
    );
    assert_eq!(cycles, 12);
}

#[test]
fn unlk_an_pops_into_an_and_leaves_sp_above_it() {
    let mut bus = FlatBus::new();
    bus.load(0x1000, &[0x4E5A, 0x4E71]);
    bus.put16(0x2800, 0x0000);
    bus.put16(0x2802, 0x4444);
    let mut cpu = at(&mut bus);
    cpu.a[2] = 0x2800;

    let dec = Decoder::new();
    cpu.step_with(&dec, &mut bus);

    assert_eq!(cpu.a[2], 0x0000_4444, "A2 takes the popped long");
    assert_eq!(cpu.a[7], 0x2804, "SP ends at old A2 + 4");
}

#[test]
fn lea_performs_no_data_access() {
    let mut bus = RecordingBus::new();
    bus.load(0x1000, &[0x43D0, 0x4E71]);
    let mut cpu = at(&mut bus);
    cpu.a[0] = 0x2001;
    bus.log.clear();

    let dec = Decoder::new();
    let cycles = cpu.step_with(&dec, &mut bus);

    assert_eq!(cpu.a[1], 0x2001);
    assert!(
        bus.reads().iter().all(|r| r.0 >= 0x1000 && r.0 < 0x1010),
        "LEA reads only the instruction stream; got {:04X?}",
        bus.reads()
    );
    assert_eq!(cycles, 4);
    assert_eq!(cpu.sr, SR_S, "LEA does not touch the CCR");
}

#[test]
fn pea_pushes_the_address_high_word_first() {
    let mut bus = RecordingBus::new();
    bus.load(0x1000, &[0x4850, 0x4E71]);
    let mut cpu = at(&mut bus);
    cpu.a[0] = 0x0012_3456;
    cpu.a[7] = 0x3000;
    cpu.ssp = 0x3000;
    bus.log.clear();

    let dec = Decoder::new();
    let cycles = cpu.step_with(&dec, &mut bus);

    assert_eq!(cpu.a[7], 0x2FFC);
    let writes = bus.writes();
    assert_eq!(
        writes[0],
        (0x2FFC, 0x0012),
        "high word at the lower address"
    );
    assert_eq!(writes[1], (0x2FFE, 0x3456));
    assert_eq!(cycles, 12);
}

#[test]
fn pea_absolute_short_advances_the_queue_after_the_push() {
    let mut bus = RecordingBus::new();
    bus.load(0x1000, &[0x4878, 0x2000, 0x4E71]);
    let mut cpu = at(&mut bus);
    cpu.a[7] = 0x3000;
    cpu.ssp = 0x3000;
    bus.log.clear();

    let dec = Decoder::new();
    let cycles = cpu.step_with(&dec, &mut bus);

    let log: Vec<(bool, u32)> = bus.log.iter().map(|e| (e.0, e.1)).collect();
    assert!(!log[0].0, "access 0 is a program fetch");
    assert_eq!(log[1], (true, 0x2FFC), "the writes come next");
    assert_eq!(log[2], (true, 0x2FFE));
    assert!(!log[3].0, "the queue advance is LAST for (xxx).w");
    assert_eq!(cycles, 16);
}

#[test]
fn stop_makes_no_bus_access_and_leaves_the_pc_alone() {
    let mut bus = RecordingBus::new();
    bus.load(0x1000, &[0x4E72, 0x2700, 0x4E71]);
    let mut cpu = at(&mut bus);
    let pc_before = cpu.pc;
    let queue_before = cpu.prefetch;
    bus.log.clear();

    let dec = Decoder::new();
    let cycles = cpu.step_with(&dec, &mut bus);

    assert!(
        bus.log.is_empty(),
        "STOP takes its immediate from the queue, with no fetch; got {:04X?}",
        bus.log
    );
    assert_eq!(cpu.pc, pc_before, "the PC does not advance");
    assert_eq!(cpu.prefetch, queue_before, "the queue is unchanged");
    assert_eq!(cpu.sr, 0x2700);
    assert!(cpu.stopped);
    assert_eq!(cycles, 4);
}

#[test]
fn reset_costs_132_cycles_and_preserves_the_sr() {
    let mut bus = FlatBus::new();
    bus.load(0x1000, &[0x4E70, 0x4E71]);
    let mut cpu = at(&mut bus);
    cpu.sr = SR_S | 0x0705;

    let dec = Decoder::new();
    let cycles = cpu.step_with(&dec, &mut bus);

    assert_eq!(cycles, 132);
    assert_eq!(cpu.sr, SR_S | 0x0705);
    assert_eq!(cpu.pc, 0x1006, "the queue advanced by one word");
}

#[test]
fn the_privileged_instructions_trap_to_vector_8_in_user_mode() {
    for (opcode, name) in [
        (0x46C0u16, "MOVE D0,SR"),
        (0x4E60, "MOVE A0,USP"),
        (0x4E68, "MOVE USP,A0"),
        (0x4E70, "RESET"),
        (0x4E72, "STOP"),
    ] {
        let mut bus = FlatBus::new();
        bus.load(0x1000, &[opcode, 0x2700, 0x4E71]);
        bus.put16(0x0020, 0x0000);
        bus.put16(0x0022, 0x4000);
        bus.load(0x4000, &[0x4E71, 0x4E71]);

        let mut cpu = M68k::new();
        cpu.sr = 0;
        cpu.usp = 0x2000;
        cpu.ssp = 0x3000;
        cpu.a[7] = 0x2000;
        cpu.pc = 0x1000;
        cpu.prime_prefetch(&mut bus);

        let dec = Decoder::new();
        let cycles = cpu.step_with(&dec, &mut bus);

        assert_eq!(cycles, 34, "{name} must cost 34 cycles to trap");
        assert_eq!(cpu.pc, 0x4004, "{name} must vector through 8");
        assert!(cpu.sr_s(), "{name} enters supervisor mode");
        assert_eq!(
            bus.read16(0x3000 - 2),
            0x1000,
            "{name} stacks the OPCODE address, with no bump"
        );
        assert_eq!(
            cpu.a[7],
            0x3000 - 6,
            "{name} frames on the supervisor stack"
        );
    }
}

#[test]
fn move_from_sr_is_unprivileged_and_moves_the_whole_word() {
    let mut bus = FlatBus::new();
    bus.load(0x1000, &[0x40C0, 0x4E71]);
    let mut cpu = M68k::new();
    cpu.sr = 0x0015;
    cpu.usp = 0x2000;
    cpu.a[7] = 0x2000;
    cpu.pc = 0x1000;
    cpu.prime_prefetch(&mut bus);
    cpu.d[0] = 0xFFFF_FFFF;

    let dec = Decoder::new();
    let cycles = cpu.step_with(&dec, &mut bus);

    assert_eq!(cpu.pc, 0x1006, "no trap: the instruction completed");
    assert_eq!(
        cpu.d[0], 0xFFFF_0015,
        "the full SR word, with Dn's upper half preserved"
    );
    assert_eq!(cycles, 6);
}

#[test]
fn move_to_ccr_writes_only_the_low_five_bits() {
    assert_eq!(
        move_to_ccr_value(0x0700, 0x00FF),
        0x071F,
        "bits 7-5 of the operand are not CCR bits and must not be taken"
    );
    assert_eq!(
        move_to_ccr_value(0xFFE0, 0x0000),
        0xFFE0,
        "the whole system half is preserved, bit for bit"
    );
    assert_eq!(
        move_to_ccr_value(0x0000, 0x001F),
        0x001F,
        "all five CCR bits are writable"
    );
    assert_eq!(
        move_to_ccr_value(0xFFFF, 0x0000),
        0xFFE0,
        "and all five are clearable"
    );
}

#[test]
fn move_to_ccr_is_unprivileged_and_rewinds_before_refilling() {
    let mut bus = RecordingBus::new();
    bus.load(0x1000, &[0x44C0, 0x4E71, 0x4E71]);
    let mut cpu = M68k::new();
    cpu.sr = 0x0700;
    cpu.usp = 0x2000;
    cpu.a[7] = 0x2000;
    cpu.pc = 0x1000;
    cpu.prime_prefetch(&mut bus);
    cpu.d[0] = 0xFFFF_FF1F;
    bus.log.clear();

    let dec = Decoder::new();
    let cycles = cpu.step_with(&dec, &mut bus);

    assert_eq!(
        cpu.sr, 0x071F,
        "only the CCR half changes; bits 5-7 stay clear via SR_MASK"
    );
    assert_eq!(cycles, 12);
    let reads: Vec<u32> = bus.reads().iter().map(|r| r.0).collect();
    assert_eq!(
        reads,
        vec![0x1002, 0x1004],
        "the tail refills at pc-2 then pc, rather than advancing twice"
    );
    assert_eq!(cpu.pc, 0x1006);
}

#[test]
fn move_to_sr_can_leave_supervisor_mode_and_swaps_the_stack_pointers() {
    let mut bus = FlatBus::new();
    bus.load(0x1000, &[0x46C0, 0x4E71, 0x4E71]);
    let mut cpu = at(&mut bus);
    cpu.a[7] = 0x3000;
    cpu.ssp = 0x3000;
    cpu.usp = 0x2000;
    cpu.d[0] = 0x0000;

    let dec = Decoder::new();
    cpu.step_with(&dec, &mut bus);

    assert!(!cpu.sr_s());
    assert_eq!(cpu.a[7], 0x2000, "a[7] switches to the USP");
    assert_eq!(cpu.ssp, 0x3000, "the SSP is saved");
}

#[test]
fn swap_sets_n_from_the_swapped_long() {
    let mut bus = FlatBus::new();
    bus.load(0x1000, &[0x4840, 0x4E71]);
    let mut cpu = at(&mut bus);
    cpu.d[0] = 0x0001_8000;
    cpu.sr = SR_S | 0x0010;

    let dec = Decoder::new();
    let cycles = cpu.step_with(&dec, &mut bus);

    assert_eq!(cpu.d[0], 0x8000_0001);
    assert_eq!(cpu.sr, SR_S | 0x0010 | SR_N, "N from bit 31, X preserved");
    assert_eq!(cycles, 4);
}

#[test]
fn ext_w_preserves_the_upper_half_and_ext_l_does_not() {
    let mut bus = FlatBus::new();
    bus.load(0x1000, &[0x4880, 0x4E71]);
    let mut cpu = at(&mut bus);
    cpu.d[0] = 0xAAAA_AA80;
    let dec = Decoder::new();
    cpu.step_with(&dec, &mut bus);
    assert_eq!(cpu.d[0], 0xAAAA_FF80, "EXT.w is a word-sized write");
    assert_eq!(cpu.sr & SR_N, SR_N);

    let mut bus = FlatBus::new();
    bus.load(0x1000, &[0x48C0, 0x4E71]);
    let mut cpu = at(&mut bus);
    cpu.d[0] = 0xAAAA_8000;
    cpu.step_with(&dec, &mut bus);
    assert_eq!(cpu.d[0], 0xFFFF_8000, "EXT.l rewrites all 32 bits");
}

#[test]
fn exg_exchanges_data_and_address_registers() {
    let dec = Decoder::new();
    let mut bus = FlatBus::new();
    bus.load(0x1000, &[0xC189, 0x4E71]);
    let mut cpu = at(&mut bus);
    cpu.d[0] = 0x1111_1111;
    cpu.a[1] = 0x2222_2222;
    cpu.sr = SR_S | 0x001F;

    let cycles = cpu.step_with(&dec, &mut bus);

    assert_eq!(cpu.d[0], 0x2222_2222);
    assert_eq!(cpu.a[1], 0x1111_1111);
    assert_eq!(cpu.sr, SR_S | 0x001F, "EXG leaves the CCR alone");
    assert_eq!(cycles, 6);
}

#[test]
fn the_usp_moves_reach_the_inactive_stack_pointer() {
    let dec = Decoder::new();
    let mut bus = FlatBus::new();
    bus.load(0x1000, &[0x4E68, 0x4E71]);
    let mut cpu = at(&mut bus);
    cpu.usp = 0x1234_5678;
    cpu.a[7] = 0x3000;
    cpu.ssp = 0x3000;

    cpu.step_with(&dec, &mut bus);
    assert_eq!(cpu.a[0], 0x1234_5678);
    assert_eq!(cpu.a[7], 0x3000, "the active SP is untouched");

    let mut bus = FlatBus::new();
    bus.load(0x1000, &[0x4E61, 0x4E71]);
    let mut cpu = at(&mut bus);
    cpu.a[1] = 0x00AB_CDEF;
    cpu.step_with(&dec, &mut bus);
    assert_eq!(cpu.usp, 0x00AB_CDEF);
}

#[test]
fn a_misaligned_movem_faults_before_transferring_anything() {
    let mut bus = RecordingBus::new();
    bus.load(0x1000, &[0x4C98, 0x000F, 0x4E71]);
    bus.put16(0x000C, 0x0000);
    bus.put16(0x000E, 0x5000);
    bus.load(0x5000, &[0x4E71, 0x4E71]);
    let mut cpu = at(&mut bus);
    cpu.a[0] = 0x2001;
    for i in 0..4 {
        cpu.d[i] = 0x9999_9999;
    }
    bus.log.clear();

    let dec = Decoder::new();
    cpu.step_with(&dec, &mut bus);

    assert_eq!(cpu.pc, 0x5004, "vectored through 3");
    assert_eq!(cpu.a[0], 0x2001, "An is NOT updated on a fault");
    for i in 0..4 {
        assert_eq!(cpu.d[i], 0x9999_9999, "no register is loaded");
    }
    assert!(
        bus.reads()
            .iter()
            .all(|r| r.0 < 0x1010 || r.0 >= 0x5000 || r.0 < 0x0010),
        "the aborted access must not appear on the bus; got {:04X?}",
        bus.reads()
    );
}

#[test]
fn pea_with_odd_sp_faults_without_writing() {
    let mut bus = RecordingBus::new();
    bus.load(0x1000, &[0x4850, 0x4E71]);
    bus.put16(0x000C, 0x0000);
    bus.put16(0x000E, 0x5000);
    bus.load(0x5000, &[0x4E71, 0x4E71]);
    let mut cpu = at(&mut bus);
    cpu.a[0] = 0xABCD_0000;
    cpu.a[7] = 0x2FFF;
    cpu.ssp = 0x2FFF;
    bus.log.clear();

    let dec = Decoder::new();
    let cycles = cpu.step_with(&dec, &mut bus);

    assert!(cpu.halted, "an odd frame base is a double bus fault");
    assert_eq!(bus.writes(), vec![], "no frame and no operand push");
    assert!(
        !bus.log.iter().any(|&(w, _, v)| w && v == 0xABCD),
        "the operand push must not have happened; 0xABCD appeared in writes: {:04X?}",
        bus.writes()
    );
    assert_eq!(bus.log.len(), 1, "just the queue advance");
    assert_eq!(
        cycles,
        4 + exception::HALTED_IDLE_CYCLES,
        "4 × 1 access + the halt idle, not the framed 58"
    );
}

#[test]
fn pea_indexed_with_odd_sp_charges_its_lead_idle() {
    let mut bus = RecordingBus::new();
    bus.load(0x1000, &[0x4870, 0x0000, 0x4E71]);
    bus.put16(0x000C, 0x0000);
    bus.put16(0x000E, 0x5000);
    bus.load(0x5000, &[0x4E71, 0x4E71]);
    let mut cpu = at(&mut bus);
    cpu.a[0] = 0xABCD_0000;
    cpu.d[0] = 0;
    cpu.a[7] = 0x2FFF;
    cpu.ssp = 0x2FFF;
    bus.log.clear();

    let dec = Decoder::new();
    let cycles = cpu.step_with(&dec, &mut bus);

    assert!(cpu.halted, "an odd frame base is a double bus fault");
    assert_eq!(bus.writes(), vec![], "no frame and no operand push");
    assert_eq!(
        bus.log.len(),
        2,
        "the extension fetch and the queue advance"
    );
    assert_eq!(
        cycles,
        4 * 2 + 4 + exception::HALTED_IDLE_CYCLES,
        "4 × 2 accesses + 4 of lead idle + the halt idle"
    );
}

#[test]
fn link_with_odd_sp_faults_without_writing() {
    let mut bus = RecordingBus::new();
    bus.load(0x1000, &[0x4E50, 0x0000, 0x4E71]);
    bus.put16(0x000C, 0x0000);
    bus.put16(0x000E, 0x5000);
    bus.load(0x5000, &[0x4E71, 0x4E71]);
    let mut cpu = at(&mut bus);
    cpu.a[0] = 0xDEAD_0000;
    cpu.a[7] = 0x2FFF;
    cpu.ssp = 0x2FFF;
    bus.log.clear();

    let dec = Decoder::new();
    let cycles = cpu.step_with(&dec, &mut bus);

    assert!(cpu.halted, "an odd frame base is a double bus fault");
    assert_eq!(bus.writes(), vec![], "no frame and no operand push");
    assert!(
        !bus.log.iter().any(|&(w, _, v)| w && v == 0xDEAD),
        "the operand push must not have happened; 0xDEAD appeared in writes: {:04X?}",
        bus.writes()
    );
    assert_eq!(bus.log.len(), 1, "just the displacement fetch");
    assert_eq!(
        cycles,
        4 + exception::HALTED_IDLE_CYCLES,
        "4 × 1 access + the halt idle, not the framed 58"
    );
}
