use m68k::disasm::disassemble;

#[allow(unused_mut)]
fn dis(words: &[u16]) -> String {
    let mut w = words.to_vec();
    disassemble(|a| w.get((a / 2) as usize).copied().unwrap_or(0), 0).text
}

#[test]
fn disassembles_common_forms() {
    assert_eq!(dis(&[0x4E71]), "nop");
    assert_eq!(dis(&[0x4E75]), "rts");
    assert_eq!(dis(&[0x7003]), "moveq #3,d0");
    assert_eq!(dis(&[0x3001]), "move.w d1,d0");
    assert_eq!(dis(&[0x2039, 0x0012, 0x3456]), "move.l $123456,d0");
    assert_eq!(dis(&[0x6000, 0x0010]), "bra $12");
    assert_eq!(dis(&[0xD041]), "add.w d1,d0");
}

#[test]
#[allow(unused_mut, clippy::useless_vec)]
fn reports_length_including_extension_words() {
    let mut w = vec![0x2039u16, 0x0012, 0x3456];
    let i = disassemble(|a| w.get((a / 2) as usize).copied().unwrap_or(0), 0);
    assert_eq!(i.len, 6);
}

#[test]
fn never_panics_on_arbitrary_words() {
    for op in 0u32..0x10000 {
        let w = [op as u16, 0x1234, 0x5678, 0x9ABC];
        let i = disassemble(|a| w.get((a / 2) as usize).copied().unwrap_or(0), 0);
        assert!(!i.text.is_empty());
        assert!(i.len >= 2);
    }
}

#[test]
fn formats_every_addressing_mode() {
    assert_eq!(dis(&[0x34E1]), "move.w -(a1),(a2)+");
    assert_eq!(dis(&[0x3028, 0xFFFE]), "move.w ($FFFE,a0),d0");
    assert_eq!(dis(&[0x3028, 0x0000]), "move.w (a0),d0");
    assert_eq!(dis(&[0x2030, 0x1008]), "move.l ($08,a0,d1.w),d0");
    assert_eq!(dis(&[0x2030, 0x98FE]), "move.l ($FE,a0,a1.l),d0");
    assert_eq!(dis(&[0x3038, 0xFF00]), "move.w $FFFFFF00,d0");
    assert_eq!(dis(&[0x41FA, 0x000E]), "lea ($10,pc),a0");
    assert_eq!(dis(&[0x303B, 0x1004]), "move.w ($6,pc,d1.w),d0");
    assert_eq!(dis(&[0x303C, 0x1234]), "move.w #4660,d0");
    assert_eq!(dis(&[0x1E3C, 0x12FF]), "move.b #255,d7");
}

#[test]
fn formats_immediate_and_bit_instructions() {
    assert_eq!(dis(&[0x0680, 0x1234, 0x5678]), "addi.l #305419896,d0");
    assert_eq!(dis(&[0x023C, 0x001F]), "andi #31,ccr");
    assert_eq!(dis(&[0x007C, 0x2000]), "ori #8192,sr");
    assert_eq!(dis(&[0x0800, 0x0003]), "btst #3,d0");
    assert_eq!(dis(&[0x03D0]), "bset d1,(a0)");
    assert_eq!(dis(&[0x0FC8, 0x0004]), "movep.l d7,($4,a0)");
    assert_eq!(dis(&[0x0F88, 0xFFFC]), "movep.w d7,($FFFC,a0)");
    assert_eq!(dis(&[0x0EFC]), "dc.w $0EFC");
}

#[test]
fn formats_control_flow() {
    assert_eq!(dis(&[0x6100, 0x0010]), "bsr $12");
    assert_eq!(dis(&[0x67FE]), "beq $0");
    assert_eq!(dis(&[0x51C8, 0xFFFC]), "dbra d0,$FFFFFFFE");
    assert_eq!(dis(&[0x57C0]), "seq d0");
    assert_eq!(dis(&[0x50C1]), "st d1");
    assert_eq!(dis(&[0x51C1]), "sf d1");
    assert_eq!(dis(&[0x4E56, 0xFFF8]), "link a6,#-8");
    assert_eq!(dis(&[0x4E72, 0x2700]), "stop #$2700");
    assert_eq!(dis(&[0x4E4F]), "trap #15");
    assert_eq!(dis(&[0x4E90]), "jsr (a0)");
}

#[test]
fn formats_register_lists_and_pairs() {
    assert_eq!(dis(&[0x48E7, 0xC080]), "movem.l d7/a6/a7,-(a7)");
    assert_eq!(dis(&[0x4CDF, 0x0003]), "movem.l (a7)+,d0/d1");
    assert_eq!(dis(&[0x4C90, 0x0000]), "movem.w (a0),#0");
    assert_eq!(dis(&[0xC38A]), "exg d1,a2");
    assert_eq!(dis(&[0xB549]), "cmpm.w (a1)+,(a2)+");
    assert_eq!(dis(&[0x8509]), "sbcd -(a1),-(a2)");
    assert_eq!(dis(&[0xD383]), "addx.l d3,d1");
}

#[test]
fn formats_shifts_and_quick_forms() {
    assert_eq!(dis(&[0xE1D0]), "asl.w (a0)");
    assert_eq!(dis(&[0xE2BA]), "ror.l d1,d2");
    assert_eq!(dis(&[0xE048]), "lsr.w #8,d0");
    assert_eq!(dis(&[0x5083]), "addq.l #8,d3");
    assert_eq!(dis(&[0x7EFF]), "moveq #-1,d7");
    assert_eq!(dis(&[0x4A10]), "tst.b (a0)");
}

#[test]
fn unknown_words_read_as_data() {
    assert_eq!(dis(&[0xA000]), "dc.w $A000");
    assert_eq!(dis(&[0xFFFF]), "dc.w $FFFF");
    assert_eq!(dis(&[0x4AFC]), "dc.w $4AFC");
    let i = disassemble(|_| 0xF123, 0);
    assert_eq!(i.len, 2);
}

#[test]
fn an_operand_naming_no_mode_reads_as_a_raw_word() {
    let w = [0x303Du16, 0x1234];
    let i = disassemble(|a| w.get((a / 2) as usize).copied().unwrap_or(0), 0);
    assert_eq!(i.text, "dc.w $303D");
    assert_eq!(i.len, 2);
}
