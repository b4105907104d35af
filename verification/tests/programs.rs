use lc3::executor::{run, step, RunStatus, VM};
use lc3::instructions::StepStatus;
use lc3::memory::{load_image, MR_KBDR};
use lc3::registers::{FL_NEG, FL_POS, FL_ZRO, R_COND, R_PC};

const HALT_MSG: &[u8] = b"[!] HALT\n";

fn image(base: u16, words: &[u16]) -> Vec<u8> {
    let mut bytes = vec![(base >> 8) as u8, (base & 0xFF) as u8];
    for w in words {
        bytes.push((w >> 8) as u8);
        bytes.push((w & 0xFF) as u8);
    }
    bytes
}

fn boot(words: &[u16]) -> VM {
    let mut vm = VM::init();
    let img = image(0x3000, words);
    load_image(&mut vm.memory, &img);
    vm
}

#[test]
fn halt_immediately() {
    let mut vm = boot(&[0xF025]);
    let res = run(&mut vm, &Vec::new(), 100);
    assert_eq!(res.status, RunStatus::Halted);
    assert_eq!(res.output, HALT_MSG.to_vec());
}

#[test]
fn add_immediate_then_halt() {
    // ADD R0, R0, #5; HALT
    let mut vm = boot(&[0x1025, 0xF025]);
    let res = run(&mut vm, &Vec::new(), 100);
    assert_eq!(res.status, RunStatus::Halted);
    assert_eq!(vm.registers.get(0), 5);
    assert_eq!(vm.registers.get(R_COND), FL_POS);
}

#[test]
fn lea_then_puts_prints_hi() {
    // LEA R0, #2; PUTS; HALT; "H"; "I"; 0
    let mut vm = boot(&[0xE002, 0xF022, 0xF025, 0x0048, 0x0049, 0x0000]);
    let res = run(&mut vm, &Vec::new(), 100);
    assert_eq!(res.status, RunStatus::Halted);
    let mut expected = b"HI".to_vec();
    expected.extend_from_slice(HALT_MSG);
    assert_eq!(res.output, expected);
}

#[test]
fn not_twice_restores_value() {
    // ADD R0, R0, #0; NOT R0, R0; NOT R1, R0; HALT
    let mut vm = boot(&[0x1020, 0x903F, 0x923F, 0xF025]);
    let res = run(&mut vm, &Vec::new(), 100);
    assert_eq!(res.status, RunStatus::Halted);
    assert_eq!(vm.registers.get(0), 0xFFFF);
    assert_eq!(vm.registers.get(1), 0x0000);
    assert_eq!(vm.registers.get(R_COND), FL_ZRO);
}

#[test]
fn branch_taken_skips_one() {
    // ADD R0, R0, #0 sets Z; BRnzp #1; HALT; HALT
    let mut vm = boot(&[0x1020, 0x0E01, 0xF025, 0xF025]);
    let res = run(&mut vm, &Vec::new(), 100);
    assert_eq!(res.status, RunStatus::Halted);
    // the second HALT, at 0x3003, was the one executed
    assert_eq!(vm.registers.get(R_PC), 0x3004);
}

#[test]
fn ldi_loads_through_one_indirection() {
    // LDI R0, #1; HALT; pointer 0x3004; filler; target word 0x002A
    let mut vm = boot(&[0xA001, 0xF025, 0x3004, 0x0000, 0x002A]);
    let res = run(&mut vm, &Vec::new(), 100);
    assert_eq!(res.status, RunStatus::Halted);
    assert_eq!(vm.registers.get(0), 0x002A);
    assert_eq!(vm.registers.get(R_COND), FL_POS);
}

#[test]
fn add_immediate_minus_one_wraps_to_negative() {
    // ADD R0, R0, #-1; HALT
    let mut vm = boot(&[0x103F, 0xF025]);
    let res = run(&mut vm, &Vec::new(), 100);
    assert_eq!(res.status, RunStatus::Halted);
    assert_eq!(vm.registers.get(0), 0xFFFF);
    assert_eq!(vm.registers.get(R_COND), FL_NEG);
}

#[test]
fn xor_with_itself_clears_and_sets_z() {
    // ADD R0, R0, #5; XOR R0, R0; HALT
    let mut vm = boot(&[0x1025, 0xD000, 0xF025]);
    let res = run(&mut vm, &Vec::new(), 100);
    assert_eq!(res.status, RunStatus::Halted);
    assert_eq!(vm.registers.get(0), 0);
    assert_eq!(vm.registers.get(R_COND), FL_ZRO);
}

#[test]
fn and_with_zero_immediate_clears_and_sets_z() {
    // ADD R0, R0, #5; AND R0, R0, #0; HALT
    let mut vm = boot(&[0x1025, 0x5020, 0xF025]);
    let res = run(&mut vm, &Vec::new(), 100);
    assert_eq!(res.status, RunStatus::Halted);
    assert_eq!(vm.registers.get(0), 0);
    assert_eq!(vm.registers.get(R_COND), FL_ZRO);
}

#[test]
fn jsr_negative_offset_moves_pc_backward() {
    // at 0x3000: HALT (the JSR target); at 0x3001: JSR #-2
    let mut vm = boot(&[0xF025, 0x4FFE]);
    vm.registers.set(R_PC, 0x3001);
    let res = step(&mut vm, &Vec::new(), 0);
    assert_eq!(res.status, StepStatus::Running);
    assert_eq!(vm.registers.get(R_PC), 0x3000);
    assert_eq!(vm.registers.get(7), 0x3002);
}

#[test]
fn jmp_takes_pc_from_register() {
    // ADD R1, R1, #12; JMP R1; nothing at 0x000C: the fuel runs out there
    let mut vm = boot(&[0x126C, 0xC040]);
    let res = run(&mut vm, &Vec::new(), 5);
    assert_eq!(res.status, RunStatus::OutOfSteps);
    assert!(vm.registers.get(R_PC) >= 0x000C);
}

#[test]
fn store_then_load_round_trip() {
    // ADD R0, R0, #7; ST R0, #2; LD R1, #1; HALT; (stored cell)
    let mut vm = boot(&[0x1027, 0x3002, 0x2201, 0xF025, 0x0000]);
    let res = run(&mut vm, &Vec::new(), 100);
    assert_eq!(res.status, RunStatus::Halted);
    assert_eq!(vm.registers.get(1), 7);
    assert_eq!(vm.memory.word_at(0x3004), 7);
}

#[test]
fn puts_with_empty_string_prints_nothing() {
    // LEA R0, #2; PUTS; HALT; 0x0000
    let mut vm = boot(&[0xE002, 0xF022, 0xF025, 0x0000]);
    let res = run(&mut vm, &Vec::new(), 100);
    assert_eq!(res.status, RunStatus::Halted);
    assert_eq!(res.output, HALT_MSG.to_vec());
}

#[test]
fn putsp_stops_at_zero_high_byte() {
    // LEA R0, #2; PUTSP; HALT; "AB" packed; low-only word ends it
    let mut vm = boot(&[0xE002, 0xF024, 0xF025, 0x4142, 0x0043]);
    let res = run(&mut vm, &Vec::new(), 100);
    assert_eq!(res.status, RunStatus::Halted);
    let mut expected = b"AB".to_vec();
    expected.extend_from_slice(HALT_MSG);
    assert_eq!(res.output, expected);
}

#[test]
fn getc_reads_one_byte_into_r0() {
    let mut vm = boot(&[0xF020, 0xF025]);
    let input = vec![0x41u8];
    let res = run(&mut vm, &input, 100);
    assert_eq!(res.status, RunStatus::Halted);
    assert_eq!(res.next_pos, 1);
    assert_eq!(vm.registers.get(0), 0x0041);
}

#[test]
fn getc_without_input_needs_input_and_changes_nothing() {
    let mut vm = boot(&[0xF020, 0xF025]);
    let res = run(&mut vm, &Vec::new(), 100);
    assert_eq!(res.status, RunStatus::NeedInput);
    assert_eq!(res.next_pos, 0);
    assert_eq!(vm.registers.get(R_PC), 0x3000);
    assert_eq!(vm.registers.get(0), 0);
}

#[test]
fn trap_in_prompts_then_reads() {
    let mut vm = boot(&[0xF023, 0xF025]);
    let input = vec![0x42u8];
    let res = run(&mut vm, &input, 100);
    assert_eq!(res.status, RunStatus::Halted);
    assert_eq!(vm.registers.get(0), 0x0042);
    let mut expected = b"Enter a character: ".to_vec();
    expected.extend_from_slice(HALT_MSG);
    assert_eq!(res.output, expected);
}

#[test]
fn trap_out_prints_low_byte() {
    // ADD R0, R0, #12; OUT; HALT
    let mut vm = boot(&[0x102C, 0xF021, 0xF025]);
    let res = run(&mut vm, &Vec::new(), 100);
    assert_eq!(res.status, RunStatus::Halted);
    let mut expected = vec![0x0Cu8];
    expected.extend_from_slice(HALT_MSG);
    assert_eq!(res.output, expected);
}

#[test]
fn kbsr_poll_through_ldi_takes_byte() {
    // LDI R0, #1; HALT; pointer to KBSR
    let mut vm = boot(&[0xA001, 0xF025, 0xFE00]);
    let input = vec![0x5Au8];
    let res = run(&mut vm, &input, 100);
    assert_eq!(res.status, RunStatus::Halted);
    assert_eq!(res.next_pos, 1);
    // reading KBSR itself yields the ready bit, and KBDR holds the byte
    assert_eq!(vm.registers.get(0), 0x8000);
    assert_eq!(vm.memory.word_at(MR_KBDR as usize), 0x005A);
}

#[test]
fn kbsr_poll_through_ldi_without_input_reads_zero() {
    let mut vm = boot(&[0xA001, 0xF025, 0xFE00]);
    let res = run(&mut vm, &Vec::new(), 100);
    assert_eq!(res.status, RunStatus::Halted);
    assert_eq!(vm.registers.get(0), 0);
    assert_eq!(vm.registers.get(R_COND), FL_ZRO);
}

#[test]
fn rti_is_fatal() {
    let mut vm = boot(&[0x8000]);
    let res = run(&mut vm, &Vec::new(), 100);
    assert_eq!(res.status, RunStatus::Rti);
}

#[test]
fn unknown_trap_vector_is_fatal() {
    let mut vm = boot(&[0xF0FF]);
    let res = run(&mut vm, &Vec::new(), 100);
    assert_eq!(res.status, RunStatus::UnknownTrap);
}

#[test]
fn tight_loop_runs_out_of_steps() {
    // ADD R0, R0, #0 sets Z; BRnzp #-2 loops forever
    let mut vm = boot(&[0x1020, 0x0FFE]);
    let res = run(&mut vm, &Vec::new(), 10);
    assert_eq!(res.status, RunStatus::OutOfSteps);
}

#[test]
fn ldr_loads_base_plus_offset() {
    // LEA R2, #2 -> R2 = 0x3003; LDR R1, R2, #1; HALT; data words
    let mut vm = boot(&[0xE402, 0x6281, 0xF025, 0x1111, 0x2222]);
    let res = run(&mut vm, &Vec::new(), 100);
    assert_eq!(res.status, RunStatus::Halted);
    assert_eq!(vm.registers.get(1), 0x2222);
}

#[test]
fn str_stores_base_plus_offset() {
    // ADD R0, R0, #9; LEA R2, #2 -> R2 = 0x3004; STR R0, R2, #1; HALT
    let mut vm = boot(&[0x1029, 0xE402, 0x7081, 0xF025]);
    let res = run(&mut vm, &Vec::new(), 100);
    assert_eq!(res.status, RunStatus::Halted);
    assert_eq!(vm.memory.word_at(0x3005), 9);
}

#[test]
fn sti_stores_through_pointer() {
    // ADD R0, R0, #3; STI R0, #2 through the pointer at 0x3004; HALT
    let mut vm = boot(&[0x1023, 0xB002, 0xF025, 0x0000, 0x4000]);
    let res = run(&mut vm, &Vec::new(), 100);
    assert_eq!(res.status, RunStatus::Halted);
    assert_eq!(vm.memory.word_at(0x4000), 3);
}

#[test]
fn jsrr_jumps_through_register_and_saves_pc() {
    // LEA R2, #1 -> R2 = 0x3002; JSRR R2; HALT at 0x3002
    let mut vm = boot(&[0xE401, 0x4080, 0xF025]);
    let res = run(&mut vm, &Vec::new(), 100);
    assert_eq!(res.status, RunStatus::Halted);
    assert_eq!(vm.registers.get(7), 0x3002);
    assert_eq!(vm.registers.get(R_PC), 0x3003);
}
