use lc3::bits::{get16, sign_extend, swap16};
use lc3::memory::{load_image, mem_read, mem_write, Memory, MR_KBDR, MR_KBSR};
use lc3::registers::{update_flags, Registers, FL_NEG, FL_POS, FL_ZRO, R_COND};

#[test]
fn sign_extend_positive_stays() {
    assert_eq!(sign_extend(0x0F, 5), 0x000F);
    assert_eq!(sign_extend(0x1F & 0x0F, 5), 0x000F);
    assert_eq!(sign_extend(0x00FF, 9), 0x00FF);
}

#[test]
fn sign_extend_negative_widths() {
    assert_eq!(sign_extend(0x1F, 5), 0xFFFF);
    assert_eq!(sign_extend(0x10, 5), 0xFFF0);
    assert_eq!(sign_extend(0x20, 6), 0xFFE0);
    assert_eq!(sign_extend(0x110, 9), 0xFF10);
    assert_eq!(sign_extend(0x400, 11), 0xFC00);
}

#[test]
fn swap16_exchanges_bytes() {
    assert_eq!(swap16(0x1234), 0x3412);
    assert_eq!(swap16(0x00FF), 0xFF00);
}

#[test]
fn swap16_twice_is_identity() {
    for x in [0x0000u16, 0x1234, 0xFFFF, 0x8001, 0x00FF] {
        assert_eq!(swap16(swap16(x)), x);
    }
}

#[test]
fn get16_is_big_endian() {
    let bytes = vec![0x12u8, 0x34, 0xAB, 0xCD];
    assert_eq!(get16(&bytes, 0), 0x1234);
    assert_eq!(get16(&bytes, 2), 0xABCD);
}

#[test]
fn update_flags_one_hot() {
    let mut regs = Registers::init();
    regs.set(0, 0);
    update_flags(&mut regs, 0);
    assert_eq!(regs.get(R_COND), FL_ZRO);
    regs.set(0, 0x8000);
    update_flags(&mut regs, 0);
    assert_eq!(regs.get(R_COND), FL_NEG);
    regs.set(0, 5);
    update_flags(&mut regs, 0);
    assert_eq!(regs.get(R_COND), FL_POS);
}

#[test]
fn memory_starts_zeroed() {
    let m = Memory::init();
    assert_eq!(m.word_at(0), 0);
    assert_eq!(m.word_at(0x3000), 0);
    assert_eq!(m.word_at(0xFFFF), 0);
}

#[test]
fn mem_write_then_read_plain_address() {
    let mut m = Memory::init();
    mem_write(&mut m, 0x1234, 0xBEEF);
    let input: Vec<u8> = Vec::new();
    let (v, p) = mem_read(&mut m, 0x1234, &input, 0);
    assert_eq!(v, 0xBEEF);
    assert_eq!(p, 0);
}

#[test]
fn zero_register_reads_zero_after_write() {
    let mut m = Memory::init();
    mem_write(&mut m, 0xFFFF, 0x1234);
    let input: Vec<u8> = Vec::new();
    let (v, _) = mem_read(&mut m, 0xFFFF, &input, 0);
    assert_eq!(v, 0);
    assert_eq!(m.word_at(0xFFFF), 0);
}

#[test]
fn kbsr_poll_with_byte_sets_status_and_data() {
    let mut m = Memory::init();
    let input = vec![0x5Au8];
    let (v, p) = mem_read(&mut m, MR_KBSR, &input, 0);
    assert_eq!(v, 0x8000);
    assert_eq!(p, 1);
    assert_eq!(m.word_at(MR_KBDR as usize), 0x005A);
}

#[test]
fn kbsr_poll_empty_clears_status_keeps_data() {
    let mut m = Memory::init();
    mem_write(&mut m, MR_KBDR as usize, 0x0041);
    let input: Vec<u8> = Vec::new();
    let (v, p) = mem_read(&mut m, MR_KBSR, &input, 0);
    assert_eq!(v, 0);
    assert_eq!(p, 0);
    assert_eq!(m.word_at(MR_KBDR as usize), 0x0041);
}

fn image(base: u16, words: &[u16]) -> Vec<u8> {
    let mut bytes = vec![(base >> 8) as u8, (base & 0xFF) as u8];
    for w in words {
        bytes.push((w >> 8) as u8);
        bytes.push((w & 0xFF) as u8);
    }
    bytes
}

#[test]
fn load_image_places_words_at_base() {
    let mut m = Memory::init();
    let img = image(0x3000, &[0x1111, 0x2222, 0x3333]);
    load_image(&mut m, &img);
    assert_eq!(m.word_at(0x3000), 0x1111);
    assert_eq!(m.word_at(0x3001), 0x2222);
    assert_eq!(m.word_at(0x3002), 0x3333);
    assert_eq!(m.word_at(0x3003), 0);
    assert_eq!(m.word_at(0x2FFF), 0);
}

#[test]
fn load_image_twice_is_idempotent() {
    let mut once = Memory::init();
    let img = image(0x4000, &[0xAAAA, 0x5555]);
    load_image(&mut once, &img);
    let mut twice = Memory::init();
    load_image(&mut twice, &img);
    load_image(&mut twice, &img);
    for a in 0x3FFE..0x4004usize {
        assert_eq!(once.word_at(a), twice.word_at(a));
    }
}

#[test]
fn load_image_odd_tail_byte_pads_low_zero() {
    let mut m = Memory::init();
    // base 0x2000, one full word, then a lone high byte
    let bytes = vec![0x20u8, 0x00, 0x12, 0x34, 0xAB];
    load_image(&mut m, &bytes);
    assert_eq!(m.word_at(0x2000), 0x1234);
    assert_eq!(m.word_at(0x2001), 0xAB00);
}

#[test]
fn load_image_truncates_at_top_of_memory() {
    let mut m = Memory::init();
    let img = image(0xFFFE, &[0x0001, 0x0002, 0x0003, 0x0004]);
    load_image(&mut m, &img);
    assert_eq!(m.word_at(0xFFFE), 0x0001);
    assert_eq!(m.word_at(0xFFFF), 0x0002);
    assert_eq!(m.word_at(0x0000), 0);
}
