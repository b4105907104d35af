//! The sixteen opcodes and the trap service routines: a specification
//! function for each state transition, and the verified handlers that
//! implement them.

use vstd::prelude::*;
use crate::bits::{sign_extend, sign_extend_spec};
use crate::memory::{
    mem_read, mem_read_spec, mem_write, mem_write_spec, Memory, MEM_SIZE, MR_KBSR, R_ZERO,
};
use crate::registers::{
    flag_for, update_flags, Registers, FL_ZRO, R_COND, R_COUNT, R_PC, R_R0, R_R7,
};

verus! {

/// Addition of two words, wrapping modulo 2^16.
pub open spec fn wadd(x: u16, y: u16) -> u16 {
    if x + y > 0xFFFF {
        (x + y - 0x10000) as u16
    } else {
        (x + y) as u16
    }
}

/// The opcode in bits 15..12 of an instruction word.
pub open spec fn op_of(instr: u16) -> u16 {
    instr >> 12
}

/// The destination register field, bits 11..9.
pub open spec fn dr_of(instr: u16) -> int {
    ((instr >> 9) & 0x7) as int
}

/// The first source register field, bits 8..6.
pub open spec fn sr1_of(instr: u16) -> int {
    ((instr >> 6) & 0x7) as int
}

/// The second source register field, bits 2..0.
pub open spec fn sr2_of(instr: u16) -> int {
    (instr & 0x7) as int
}

/// The 5-bit immediate, sign-extended.
pub open spec fn imm5_of(instr: u16) -> u16 {
    sign_extend_spec(instr & 0x1F, 5)
}

/// The 6-bit offset, sign-extended.
pub open spec fn off6_of(instr: u16) -> u16 {
    sign_extend_spec(instr & 0x3F, 6)
}

/// The 9-bit offset, sign-extended.
pub open spec fn off9_of(instr: u16) -> u16 {
    sign_extend_spec(instr & 0x1FF, 9)
}

/// The 11-bit offset, sign-extended.
pub open spec fn off11_of(instr: u16) -> u16 {
    sign_extend_spec(instr & 0x7FF, 11)
}

/// How one step of the machine ended.
#[derive(Clone, Copy, Debug, PartialEq, Eq, Structural)]
pub enum StepStatus {
    /// The instruction retired; execution goes on.
    Running,
    /// A GETC or IN trap found no keyboard byte left; nothing changed.
    NeedInput,
    /// A HALT trap retired; the running flag is now false.
    Halted,
    /// An RTI instruction was fetched; it is unsupported and fatal.
    Rti,
    /// A TRAP instruction named a vector with no handler; fatal.
    UnknownTrap,
}

/// The sixteen operations, in opcode order 0 through 15.
pub enum Instructions {
    BR,
    ADD,
    LD,
    ST,
    JSR,
    AND,
    LDR,
    STR,
    RTI,
    NOT,
    LDI,
    STI,
    JMP,
    XOR,
    LEA,
    TRAP,
}

/// The trap service routines, by vector.
#[allow(non_camel_case_types)]
pub enum TrapCodes {
    /// 0x20: read one byte from the keyboard into R0.
    TRAP_GETC,
    /// 0x21: print the low byte of R0.
    TRAP_OUT,
    /// 0x22: print low bytes from memory[R0] up to the first zero word.
    TRAP_PUTS,
    /// 0x23: prompt, then read one byte into R0.
    TRAP_IN,
    /// 0x24: print byte pairs from memory[R0] up to the first word with a
    /// zero high byte.
    TRAP_PUTSP,
    /// 0x25: print the halt message and stop.
    TRAP_HALT,
}

impl TrapCodes {
    /// The service routine that an 8-bit trap vector selects, if any.
    pub open spec fn decode_spec(vector: u16) -> Option<TrapCodes> {
        if vector == 0x20 {
            Some(TrapCodes::TRAP_GETC)
        } else if vector == 0x21 {
            Some(TrapCodes::TRAP_OUT)
        } else if vector == 0x22 {
            Some(TrapCodes::TRAP_PUTS)
        } else if vector == 0x23 {
            Some(TrapCodes::TRAP_IN)
        } else if vector == 0x24 {
            Some(TrapCodes::TRAP_PUTSP)
        } else if vector == 0x25 {
            Some(TrapCodes::TRAP_HALT)
        } else {
            None
        }
    }

    /// Decodes an 8-bit trap vector into its service routine.
    pub fn decode(vector: u16) -> (r: Option<TrapCodes>)
        ensures
            r == Self::decode_spec(vector),
    {
        if vector == 0x20 {
            Some(TrapCodes::TRAP_GETC)
        } else if vector == 0x21 {
            Some(TrapCodes::TRAP_OUT)
        } else if vector == 0x22 {
            Some(TrapCodes::TRAP_PUTS)
        } else if vector == 0x23 {
            Some(TrapCodes::TRAP_IN)
        } else if vector == 0x24 {
            Some(TrapCodes::TRAP_PUTSP)
        } else if vector == 0x25 {
            Some(TrapCodes::TRAP_HALT)
        } else {
            None
        }
    }
}

/// Registers after BR: if the instruction's flag bits meet the condition
/// register, the 9-bit offset is added to PC.
pub open spec fn branch_spec(regs: Seq<u16>, instr: u16) -> Seq<u16>
    recommends
        regs.len() == R_COUNT,
{
    if ((instr >> 9) & 0x7) & regs[R_COND as int] != 0 {
        regs.update(R_PC as int, wadd(regs[R_PC as int], off9_of(instr)))
    } else {
        regs
    }
}

/// Registers after ADD: DR gets SR1 plus either the immediate or SR2,
/// wrapping, and the flags follow the written value.
pub open spec fn add_op_spec(regs: Seq<u16>, instr: u16) -> Seq<u16>
    recommends
        regs.len() == R_COUNT,
{
    let v = if (instr >> 5) & 1 == 1 {
        wadd(regs[sr1_of(instr)], imm5_of(instr))
    } else {
        wadd(regs[sr1_of(instr)], regs[sr2_of(instr)])
    };
    regs.update(dr_of(instr), v).update(R_COND as int, flag_for(v))
}

/// Registers after AND: DR gets SR1 bitwise-and either the immediate or
/// SR2, and the flags follow the written value.
pub open spec fn and_op_spec(regs: Seq<u16>, instr: u16) -> Seq<u16>
    recommends
        regs.len() == R_COUNT,
{
    let v = if (instr >> 5) & 1 == 1 {
        regs[sr1_of(instr)] & imm5_of(instr)
    } else {
        regs[sr1_of(instr)] & regs[sr2_of(instr)]
    };
    regs.update(dr_of(instr), v).update(R_COND as int, flag_for(v))
}

/// Registers after NOT: DR gets the bitwise complement of SR1, and the
/// flags follow the written value.
pub open spec fn not_spec(regs: Seq<u16>, instr: u16) -> Seq<u16>
    recommends
        regs.len() == R_COUNT,
{
    let v = !regs[sr1_of(instr)];
    regs.update(dr_of(instr), v).update(R_COND as int, flag_for(v))
}

/// Registers after XOR: DR gets DR xor SR1, and the flags follow the
/// written value.
pub open spec fn xor_spec(regs: Seq<u16>, instr: u16) -> Seq<u16>
    recommends
        regs.len() == R_COUNT,
{
    let v = regs[dr_of(instr)] ^ regs[sr1_of(instr)];
    regs.update(dr_of(instr), v).update(R_COND as int, flag_for(v))
}

/// Registers after JMP (and RET): PC gets SR1.
pub open spec fn jump_spec(regs: Seq<u16>, instr: u16) -> Seq<u16>
    recommends
        regs.len() == R_COUNT,
{
    regs.update(R_PC as int, regs[sr1_of(instr)])
}

/// Registers after JSR/JSRR: R7 saves PC; then PC either gains the 11-bit
/// offset (JSR) or is taken from SR1 as it stands after the save (JSRR).
pub open spec fn jsr_spec(regs: Seq<u16>, instr: u16) -> Seq<u16>
    recommends
        regs.len() == R_COUNT,
{
    let s1 = regs.update(R_R7 as int, regs[R_PC as int]);
    if (instr >> 11) & 1 != 0 {
        s1.update(R_PC as int, wadd(s1[R_PC as int], off11_of(instr)))
    } else {
        s1.update(R_PC as int, s1[sr1_of(instr)])
    }
}

/// Registers after LEA: DR gets PC plus the 9-bit offset, and the flags
/// follow the written value.
pub open spec fn lea_spec(regs: Seq<u16>, instr: u16) -> Seq<u16>
    recommends
        regs.len() == R_COUNT,
{
    let v = wadd(regs[R_PC as int], off9_of(instr));
    regs.update(dr_of(instr), v).update(R_COND as int, flag_for(v))
}

/// State after LD: DR gets the word at PC plus the 9-bit offset (a load
/// with the mapped-register effects), and the flags follow it.
pub open spec fn ld_spec(regs: Seq<u16>, m: Seq<u16>, instr: u16, input: Seq<u8>, pos: int) -> (
    Seq<u16>,
    Seq<u16>,
    int,
)
    recommends
        regs.len() == R_COUNT,
        m.len() == MEM_SIZE,
{
    let r = mem_read_spec(m, wadd(regs[R_PC as int], off9_of(instr)), input, pos);
    (regs.update(dr_of(instr), r.1).update(R_COND as int, flag_for(r.1)), r.0, r.2)
}

/// State after LDR: DR gets the word at SR1 plus the 6-bit offset, and the
/// flags follow it.
pub open spec fn ldr_spec(regs: Seq<u16>, m: Seq<u16>, instr: u16, input: Seq<u8>, pos: int) -> (
    Seq<u16>,
    Seq<u16>,
    int,
)
    recommends
        regs.len() == R_COUNT,
        m.len() == MEM_SIZE,
{
    let r = mem_read_spec(m, wadd(regs[sr1_of(instr)], off6_of(instr)), input, pos);
    (regs.update(dr_of(instr), r.1).update(R_COND as int, flag_for(r.1)), r.0, r.2)
}

/// State after LDI: the word at PC plus the 9-bit offset names an address,
/// DR gets the word found there, and the flags follow it. Both loads carry
/// the mapped-register effects.
pub open spec fn ldi_spec(regs: Seq<u16>, m: Seq<u16>, instr: u16, input: Seq<u8>, pos: int) -> (
    Seq<u16>,
    Seq<u16>,
    int,
)
    recommends
        regs.len() == R_COUNT,
        m.len() == MEM_SIZE,
{
    let r1 = mem_read_spec(m, wadd(regs[R_PC as int], off9_of(instr)), input, pos);
    let r2 = mem_read_spec(r1.0, r1.1, input, r1.2);
    (regs.update(dr_of(instr), r2.1).update(R_COND as int, flag_for(r2.1)), r2.0, r2.2)
}

/// Memory after ST: DR is stored at PC plus the 9-bit offset.
pub open spec fn st_spec(regs: Seq<u16>, m: Seq<u16>, instr: u16) -> Seq<u16>
    recommends
        regs.len() == R_COUNT,
        m.len() == MEM_SIZE,
{
    mem_write_spec(m, wadd(regs[R_PC as int], off9_of(instr)) as int, regs[dr_of(instr)])
}

/// Memory after STR: DR is stored at SR1 plus the 6-bit offset.
pub open spec fn str_spec(regs: Seq<u16>, m: Seq<u16>, instr: u16) -> Seq<u16>
    recommends
        regs.len() == R_COUNT,
        m.len() == MEM_SIZE,
{
    mem_write_spec(m, wadd(regs[sr1_of(instr)], off6_of(instr)) as int, regs[dr_of(instr)])
}

/// State after STI: the word at PC plus the 9-bit offset names an address,
/// and DR is stored there. The load carries the mapped-register effects.
pub open spec fn sti_spec(regs: Seq<u16>, m: Seq<u16>, instr: u16, input: Seq<u8>, pos: int) -> (
    Seq<u16>,
    int,
)
    recommends
        regs.len() == R_COUNT,
        m.len() == MEM_SIZE,
{
    let r = mem_read_spec(m, wadd(regs[R_PC as int], off9_of(instr)), input, pos);
    (mem_write_spec(r.0, r.1 as int, regs[dr_of(instr)]), r.2)
}

impl Instructions {
    /// The operation that a 4-bit opcode selects.
    pub open spec fn decode_spec(op: u16) -> Instructions {
        if op == 0 {
            Instructions::BR
        } else if op == 1 {
            Instructions::ADD
        } else if op == 2 {
            Instructions::LD
        } else if op == 3 {
            Instructions::ST
        } else if op == 4 {
            Instructions::JSR
        } else if op == 5 {
            Instructions::AND
        } else if op == 6 {
            Instructions::LDR
        } else if op == 7 {
            Instructions::STR
        } else if op == 8 {
            Instructions::RTI
        } else if op == 9 {
            Instructions::NOT
        } else if op == 10 {
            Instructions::LDI
        } else if op == 11 {
            Instructions::STI
        } else if op == 12 {
            Instructions::JMP
        } else if op == 13 {
            Instructions::XOR
        } else if op == 14 {
            Instructions::LEA
        } else {
            Instructions::TRAP
        }
    }

    /// Decodes a 4-bit opcode into its operation.
    pub fn decode(op: u16) -> (r: Instructions)
        requires
            op < 16,
        ensures
            r == Self::decode_spec(op),
    {
        if op == 0 {
            Instructions::BR
        } else if op == 1 {
            Instructions::ADD
        } else if op == 2 {
            Instructions::LD
        } else if op == 3 {
            Instructions::ST
        } else if op == 4 {
            Instructions::JSR
        } else if op == 5 {
            Instructions::AND
        } else if op == 6 {
            Instructions::LDR
        } else if op == 7 {
            Instructions::STR
        } else if op == 8 {
            Instructions::RTI
        } else if op == 9 {
            Instructions::NOT
        } else if op == 10 {
            Instructions::LDI
        } else if op == 11 {
            Instructions::STI
        } else if op == 12 {
            Instructions::JMP
        } else if op == 13 {
            Instructions::XOR
        } else if op == 14 {
            Instructions::LEA
        } else {
            Instructions::TRAP
        }
    }

    /// Conditional branch on the condition register.
    pub fn branch(registers: &mut Registers, instr: u16)
        requires
            old(registers).wf(),
        ensures
            final(registers).wf(),
            final(registers)@ == branch_spec(old(registers)@, instr),
    {
        let pc_offset = sign_extend(instr & 0x1ff, 9);
        let cond_flag = (instr >> 9) & 0x7;
        if cond_flag & registers.get(R_COND) != 0 {
            let pc = registers.get(R_PC);
            registers.set(R_PC, pc.wrapping_add(pc_offset));
        }
    }

    /// Wrapping addition into DR, register or immediate form.
    pub fn add(registers: &mut Registers, instr: u16)
        requires
            old(registers).wf(),
        ensures
            final(registers).wf(),
            final(registers)@ == add_op_spec(old(registers)@, instr),
    {
        let r0 = reg_field(instr, 9);
        let r1 = reg_field(instr, 6);
        let imm_flag = (instr >> 5) & 0x1;
        if imm_flag == 1 {
            let imm5 = sign_extend(instr & 0x1F, 5);
            let v = registers.get(r1).wrapping_add(imm5);
            registers.set(r0, v);
        } else {
            let r2 = sr2_field(instr);
            let v = registers.get(r1).wrapping_add(registers.get(r2));
            registers.set(r0, v);
        }
        update_flags(registers, r0);
    }

    /// Bitwise and into DR, register or immediate form.
    pub fn and(registers: &mut Registers, instr: u16)
        requires
            old(registers).wf(),
        ensures
            final(registers).wf(),
            final(registers)@ == and_op_spec(old(registers)@, instr),
    {
        let r0 = reg_field(instr, 9);
        let r1 = reg_field(instr, 6);
        let imm_flag = (instr >> 5) & 0x1;
        if imm_flag == 1 {
            let imm5 = sign_extend(instr & 0x1F, 5);
            let v = registers.get(r1) & imm5;
            registers.set(r0, v);
        } else {
            let r2 = sr2_field(instr);
            let v = registers.get(r1) & registers.get(r2);
            registers.set(r0, v);
        }
        update_flags(registers, r0);
    }

    /// Bitwise complement of SR1 into DR.
    pub fn bitwise_not(registers: &mut Registers, instr: u16)
        requires
            old(registers).wf(),
        ensures
            final(registers).wf(),
            final(registers)@ == not_spec(old(registers)@, instr),
    {
        let r0 = reg_field(instr, 9);
        let r1 = reg_field(instr, 6);
        let v = !registers.get(r1);
        registers.set(r0, v);
        update_flags(registers, r0);
    }

    /// DR xor SR1 into DR.
    pub fn xor(registers: &mut Registers, instr: u16)
        requires
            old(registers).wf(),
        ensures
            final(registers).wf(),
            final(registers)@ == xor_spec(old(registers)@, instr),
    {
        let r0 = reg_field(instr, 9);
        let r1 = reg_field(instr, 6);
        let v = registers.get(r0) ^ registers.get(r1);
        registers.set(r0, v);
        update_flags(registers, r0);
    }

    /// Unconditional jump through SR1; encodes RET when SR1 is R7.
    pub fn jump(registers: &mut Registers, instr: u16)
        requires
            old(registers).wf(),
        ensures
            final(registers).wf(),
            final(registers)@ == jump_spec(old(registers)@, instr),
    {
        let r1 = reg_field(instr, 6);
        let v = registers.get(r1);
        registers.set(R_PC, v);
    }

    /// Jump to subroutine: saves PC into R7, then moves PC by the 11-bit
    /// offset (JSR) or takes it from SR1 (JSRR).
    pub fn jump_register(registers: &mut Registers, instr: u16)
        requires
            old(registers).wf(),
        ensures
            final(registers).wf(),
            final(registers)@ == jsr_spec(old(registers)@, instr),
    {
        let r1 = reg_field(instr, 6);
        let long_pc_offset = sign_extend(instr & 0x7ff, 11);
        let long_flag = (instr >> 11) & 1;
        let pc = registers.get(R_PC);
        registers.set(R_R7, pc);
        if long_flag != 0 {
            let v = registers.get(R_PC).wrapping_add(long_pc_offset);
            registers.set(R_PC, v);
        } else {
            let v = registers.get(r1);
            registers.set(R_PC, v);
        }
    }

    /// PC plus the 9-bit offset into DR.
    pub fn effective_address(registers: &mut Registers, instr: u16)
        requires
            old(registers).wf(),
        ensures
            final(registers).wf(),
            final(registers)@ == lea_spec(old(registers)@, instr),
    {
        let r0 = reg_field(instr, 9);
        let pc_offset = sign_extend(instr & 0x1ff, 9);
        let v = registers.get(R_PC).wrapping_add(pc_offset);
        registers.set(r0, v);
        update_flags(registers, r0);
    }

    /// Load from PC plus the 9-bit offset into DR.
    pub fn load(registers: &mut Registers, instr: u16, memory: &mut Memory, input: &Vec<u8>, pos: usize) -> (p: usize)
        requires
            old(registers).wf(),
            old(memory).wf(),
            pos <= input@.len(),
        ensures
            final(registers).wf(),
            final(memory).wf(),
            ({
                let s = ld_spec(old(registers)@, old(memory)@, instr, input@, pos as int);
                final(registers)@ == s.0 && final(memory)@ == s.1 && p as int == s.2
            }),
            pos <= p <= input@.len(),
    {
        let r0 = reg_field(instr, 9);
        let pc_offset = sign_extend(instr & 0x1ff, 9);
        let addr = registers.get(R_PC).wrapping_add(pc_offset);
        let (v, p1) = mem_read(memory, addr, input, pos);
        registers.set(r0, v);
        update_flags(registers, r0);
        p1
    }

    /// Load from SR1 plus the 6-bit offset into DR.
    pub fn load_registers(registers: &mut Registers, instr: u16, memory: &mut Memory, input: &Vec<u8>, pos: usize) -> (p: usize)
        requires
            old(registers).wf(),
            old(memory).wf(),
            pos <= input@.len(),
        ensures
            final(registers).wf(),
            final(memory).wf(),
            ({
                let s = ldr_spec(old(registers)@, old(memory)@, instr, input@, pos as int);
                final(registers)@ == s.0 && final(memory)@ == s.1 && p as int == s.2
            }),
            pos <= p <= input@.len(),
    {
        let r0 = reg_field(instr, 9);
        let r1 = reg_field(instr, 6);
        let offset = sign_extend(instr & 0x3F, 6);
        let addr = registers.get(r1).wrapping_add(offset);
        let (v, p1) = mem_read(memory, addr, input, pos);
        registers.set(r0, v);
        update_flags(registers, r0);
        p1
    }

    /// Indirect load: the word at PC plus the 9-bit offset names the
    /// address whose word goes into DR.
    pub fn load_indirect(registers: &mut Registers, instr: u16, memory: &mut Memory, input: &Vec<u8>, pos: usize) -> (p: usize)
        requires
            old(registers).wf(),
            old(memory).wf(),
            pos <= input@.len(),
        ensures
            final(registers).wf(),
            final(memory).wf(),
            ({
                let s = ldi_spec(old(registers)@, old(memory)@, instr, input@, pos as int);
                final(registers)@ == s.0 && final(memory)@ == s.1 && p as int == s.2
            }),
            pos <= p <= input@.len(),
    {
        let r0 = reg_field(instr, 9);
        let pc_offset = sign_extend(instr & 0x1ff, 9);
        let addr = registers.get(R_PC).wrapping_add(pc_offset);
        let (preload, p1) = mem_read(memory, addr, input, pos);
        let (v, p2) = mem_read(memory, preload, input, p1);
        registers.set(r0, v);
        update_flags(registers, r0);
        p2
    }

    /// Store DR at PC plus the 9-bit offset.
    pub fn store(registers: &mut Registers, instr: u16, memory: &mut Memory)
        requires
            old(registers).wf(),
            old(memory).wf(),
        ensures
            final(registers).wf(),
            final(memory).wf(),
            final(registers)@ == old(registers)@,
            final(memory)@ == st_spec(old(registers)@, old(memory)@, instr),
    {
        let r0 = reg_field(instr, 9);
        let pc_offset = sign_extend(instr & 0x1ff, 9);
        let addr = registers.get(R_PC).wrapping_add(pc_offset);
        let v = registers.get(r0);
        mem_write(memory, addr as usize, v);
    }

    /// Store DR at SR1 plus the 6-bit offset.
    pub fn store_registers(registers: &mut Registers, instr: u16, memory: &mut Memory)
        requires
            old(registers).wf(),
            old(memory).wf(),
        ensures
            final(registers).wf(),
            final(memory).wf(),
            final(registers)@ == old(registers)@,
            final(memory)@ == str_spec(old(registers)@, old(memory)@, instr),
    {
        let r0 = reg_field(instr, 9);
        let r1 = reg_field(instr, 6);
        let offset = sign_extend(instr & 0x3F, 6);
        let addr = registers.get(r1).wrapping_add(offset);
        let v = registers.get(r0);
        mem_write(memory, addr as usize, v);
    }

    /// Indirect store: the word at PC plus the 9-bit offset names the
    /// address where DR is stored.
    pub fn store_indirect(registers: &mut Registers, instr: u16, memory: &mut Memory, input: &Vec<u8>, pos: usize) -> (p: usize)
        requires
            old(registers).wf(),
            old(memory).wf(),
            pos <= input@.len(),
        ensures
            final(registers).wf(),
            final(memory).wf(),
            final(registers)@ == old(registers)@,
            ({
                let s = sti_spec(old(registers)@, old(memory)@, instr, input@, pos as int);
                final(memory)@ == s.0 && p as int == s.1
            }),
            pos <= p <= input@.len(),
    {
        let r0 = reg_field(instr, 9);
        let pc_offset = sign_extend(instr & 0x1ff, 9);
        let addr = registers.get(R_PC).wrapping_add(pc_offset);
        let (target, p1) = mem_read(memory, addr, input, pos);
        let v = registers.get(r0);
        mem_write(memory, target as usize, v);
        p1
    }

    /// The TRAP service: dispatches on the low 8 bits of `instr`. GETC and
    /// IN take the next keyboard byte, or end in `NeedInput`, changing
    /// nothing, when none is left; OUT, PUTS and PUTSP produce output
    /// bytes; HALT produces its message and clears the running flag; any
    /// other vector is fatal.
    pub fn trap(registers: &mut Registers, instr: u16, memory: &Memory, flag: &mut bool, input: &Vec<u8>, pos: usize) -> (r: StepResult)
        requires
            old(registers).wf(),
            memory.wf(),
            pos <= input@.len(),
        ensures
            final(registers).wf(),
            ({
                let s = trap_spec(old(registers)@, memory@, instr, input@, pos as int);
                final(registers)@ == s.regs && r.output@ == s.out && r.next_pos as int == s.pos
                    && *final(flag) == (*old(flag) && s.running) && r.status == s.status
            }),
            pos <= r.next_pos <= input@.len(),
    {
        let action = instr & 0xFF;
        let mut output: Vec<u8> = Vec::new();
        match TrapCodes::decode(action) {
            Some(TrapCodes::TRAP_GETC) => {
                if pos < input.len() {
                    let b = input[pos];
                    registers.set(R_R0, b as u16);
                    StepResult { output, next_pos: pos + 1, status: StepStatus::Running }
                } else {
                    StepResult { output, next_pos: pos, status: StepStatus::NeedInput }
                }
            },
            Some(TrapCodes::TRAP_OUT) => {
                let c = registers.get(R_R0);
                output.push((c & 0xFF) as u8);
                assert(output@ =~= seq![(c & 0xFF) as u8]);
                StepResult { output, next_pos: pos, status: StepStatus::Running }
            },
            Some(TrapCodes::TRAP_PUTS) => {
                let start = registers.get(R_R0);
                puts(memory, start, &mut output);
                assert(output@ =~= puts_bytes(memory@, start as int));
                StepResult { output, next_pos: pos, status: StepStatus::Running }
            },
            Some(TrapCodes::TRAP_IN) => {
                if pos < input.len() {
                    push_in_prompt(&mut output);
                    assert(output@ =~= in_prompt());
                    let b = input[pos];
                    registers.set(R_R0, b as u16);
                    StepResult { output, next_pos: pos + 1, status: StepStatus::Running }
                } else {
                    StepResult { output, next_pos: pos, status: StepStatus::NeedInput }
                }
            },
            Some(TrapCodes::TRAP_PUTSP) => {
                let start = registers.get(R_R0);
                putsp(memory, start, &mut output);
                assert(output@ =~= putsp_bytes(memory@, start as int));
                StepResult { output, next_pos: pos, status: StepStatus::Running }
            },
            Some(TrapCodes::TRAP_HALT) => {
                push_halt_message(&mut output);
                assert(output@ =~= halt_message());
                *flag = false;
                StepResult { output, next_pos: pos, status: StepStatus::Halted }
            },
            None => {
                StepResult { output, next_pos: pos, status: StepStatus::UnknownTrap }
            },
        }
    }

    /// RTI is unsupported: the machine stops fatally on it.
    pub fn rti() -> (s: StepStatus)
        ensures
            s == StepStatus::Rti,
    {
        StepStatus::Rti
    }
}

/// The characters the PUTS trap prints: the low byte of each word from
/// `start`, up to but not including the first zero word or the top of
/// memory.
pub open spec fn puts_bytes(m: Seq<u16>, start: int) -> Seq<u8>
    recommends
        m.len() == MEM_SIZE,
    decreases MEM_SIZE - start,
{
    if start < 0 || start >= MEM_SIZE {
        Seq::empty()
    } else if m[start] == 0 {
        Seq::empty()
    } else {
        seq![(m[start] & 0xFF) as u8] + puts_bytes(m, start + 1)
    }
}

/// The one or two characters a PUTSP word prints: its high byte, then its
/// low byte if that is nonzero.
pub open spec fn putsp_chunk(w: u16) -> Seq<u8> {
    if w & 0xFF != 0 {
        seq![(w >> 8) as u8, (w & 0xFF) as u8]
    } else {
        seq![(w >> 8) as u8]
    }
}

/// The characters the PUTSP trap prints: one chunk for each word from
/// `start`, up to but not including the first word whose high byte is zero.
pub open spec fn putsp_bytes(m: Seq<u16>, start: int) -> Seq<u8>
    recommends
        m.len() == MEM_SIZE,
    decreases MEM_SIZE - start,
{
    if start < 0 || start >= MEM_SIZE {
        Seq::empty()
    } else if m[start] >> 8 == 0 {
        Seq::empty()
    } else {
        putsp_chunk(m[start]) + putsp_bytes(m, start + 1)
    }
}

/// The bytes of the IN trap's prompt, "Enter a character: ".
pub open spec fn in_prompt() -> Seq<u8> {
    seq![
        0x45u8, 0x6eu8, 0x74u8, 0x65u8, 0x72u8, 0x20u8, 0x61u8, 0x20u8, 0x63u8, 0x68u8, 0x61u8, 0x72u8, 0x61u8, 0x63u8, 0x74u8, 0x65u8, 0x72u8, 0x3au8, 0x20u8,
    ]
}

/// The bytes of the halt message, "[!] HALT" and a newline.
pub open spec fn halt_message() -> Seq<u8> {
    seq![0x5bu8, 0x21u8, 0x5du8, 0x20u8, 0x48u8, 0x41u8, 0x4cu8, 0x54u8, 0x0au8]
}

/// The outcome of a trap or of one machine step: the bytes printed, the
/// count of keyboard bytes consumed so far, and how the step ended.
pub struct StepResult {
    pub output: Vec<u8>,
    pub next_pos: usize,
    pub status: StepStatus,
}

/// The trap service outcome, at the specification level.
pub struct TrapSpec {
    pub regs: Seq<u16>,
    pub out: Seq<u8>,
    pub pos: int,
    pub running: bool,
    pub status: StepStatus,
}

/// What the trap selected by the low 8 bits of `instr` does: GETC and IN
/// take the next keyboard byte, or fail with `NeedInput` changing nothing
/// when none is left; OUT, PUTS and PUTSP print; HALT prints its message
/// and clears the running flag; any other vector is fatal.
pub open spec fn trap_spec(regs: Seq<u16>, m: Seq<u16>, instr: u16, input: Seq<u8>, pos: int) -> TrapSpec
    recommends
        regs.len() == R_COUNT,
        m.len() == MEM_SIZE,
        0 <= pos <= input.len(),
{
    let vector = instr & 0xFF;
    if vector == 0x20 {
        if pos < input.len() {
            TrapSpec {
                regs: regs.update(R_R0 as int, input[pos] as u16),
                out: Seq::empty(),
                pos: pos + 1,
                running: true,
                status: StepStatus::Running,
            }
        } else {
            TrapSpec { regs: regs, out: Seq::empty(), pos: pos, running: true, status: StepStatus::NeedInput }
        }
    } else if vector == 0x21 {
        TrapSpec {
            regs: regs,
            out: seq![(regs[R_R0 as int] & 0xFF) as u8],
            pos: pos,
            running: true,
            status: StepStatus::Running,
        }
    } else if vector == 0x22 {
        TrapSpec {
            regs: regs,
            out: puts_bytes(m, regs[R_R0 as int] as int),
            pos: pos,
            running: true,
            status: StepStatus::Running,
        }
    } else if vector == 0x23 {
        if pos < input.len() {
            TrapSpec {
                regs: regs.update(R_R0 as int, input[pos] as u16),
                out: in_prompt(),
                pos: pos + 1,
                running: true,
                status: StepStatus::Running,
            }
        } else {
            TrapSpec { regs: regs, out: Seq::empty(), pos: pos, running: true, status: StepStatus::NeedInput }
        }
    } else if vector == 0x24 {
        TrapSpec {
            regs: regs,
            out: putsp_bytes(m, regs[R_R0 as int] as int),
            pos: pos,
            running: true,
            status: StepStatus::Running,
        }
    } else if vector == 0x25 {
        TrapSpec { regs: regs, out: halt_message(), pos: pos, running: false, status: StepStatus::Halted }
    } else {
        TrapSpec { regs: regs, out: Seq::empty(), pos: pos, running: true, status: StepStatus::UnknownTrap }
    }
}

/// Collects the PUTS output: the low byte of each word from `start` to the
/// first zero word, appended to `out`.
fn puts(memory: &Memory, start: u16, out: &mut Vec<u8>)
    requires
        memory.wf(),
    ensures
        final(out)@ == old(out)@ + puts_bytes(memory@, start as int),
{
    let ghost out0 = out@;
    let mut i: usize = start as usize;
    while i < MEM_SIZE && memory.word_at(i) != 0
        invariant
            memory.wf(),
            start as usize <= i <= MEM_SIZE,
            out@ + puts_bytes(memory@, i as int) == out0 + puts_bytes(memory@, start as int),
        decreases MEM_SIZE - i,
    {
        let w = memory.word_at(i);
        proof {
            assert((out@ + seq![(w & 0xFF) as u8]) + puts_bytes(memory@, i + 1) =~= out@ + (seq![
                (w & 0xFF) as u8,
            ] + puts_bytes(memory@, i + 1)));
        }
        out.push((w & 0xFF) as u8);
        i = i + 1;
    }
    proof {
        assert(out@ + Seq::<u8>::empty() =~= out@);
    }
}

/// Collects the PUTSP output: for each word from `start` to the first word
/// with a zero high byte, its high byte then its nonzero low byte, appended
/// to `out`.
fn putsp(memory: &Memory, start: u16, out: &mut Vec<u8>)
    requires
        memory.wf(),
    ensures
        final(out)@ == old(out)@ + putsp_bytes(memory@, start as int),
{
    let ghost out0 = out@;
    let mut i: usize = start as usize;
    while i < MEM_SIZE && memory.word_at(i) >> 8 != 0
        invariant
            memory.wf(),
            start as usize <= i <= MEM_SIZE,
            out@ + putsp_bytes(memory@, i as int) == out0 + putsp_bytes(memory@, start as int),
        decreases MEM_SIZE - i,
    {
        let w = memory.word_at(i);
        proof {
            assert(w >> 8 < 256 && w & 0xFF < 256) by (bit_vector);
        }
        let b1 = (w >> 8) as u8;
        let b2 = (w & 0xFF) as u8;
        let ghost prev = out@;
        out.push(b1);
        if b2 != 0 {
            out.push(b2);
        }
        proof {
            assert(out@ =~= prev + putsp_chunk(w));
            assert((prev + putsp_chunk(w)) + putsp_bytes(memory@, i + 1) =~= prev + (putsp_chunk(w)
                + putsp_bytes(memory@, i + 1)));
        }
        i = i + 1;
    }
    proof {
        assert(out@ + Seq::<u8>::empty() =~= out@);
    }
}

/// Appends the IN trap's prompt to `out`.
fn push_in_prompt(out: &mut Vec<u8>)
    ensures
        final(out)@ == old(out)@ + in_prompt(),
{
    out.push(0x45u8);
    out.push(0x6eu8);
    out.push(0x74u8);
    out.push(0x65u8);
    out.push(0x72u8);
    out.push(0x20u8);
    out.push(0x61u8);
    out.push(0x20u8);
    out.push(0x63u8);
    out.push(0x68u8);
    out.push(0x61u8);
    out.push(0x72u8);
    out.push(0x61u8);
    out.push(0x63u8);
    out.push(0x74u8);
    out.push(0x65u8);
    out.push(0x72u8);
    out.push(0x3au8);
    out.push(0x20u8);
    assert(out@ =~= old(out)@ + in_prompt());
}

/// Appends the halt message to `out`.
fn push_halt_message(out: &mut Vec<u8>)
    ensures
        final(out)@ == old(out)@ + halt_message(),
{
    out.push(0x5bu8);
    out.push(0x21u8);
    out.push(0x5du8);
    out.push(0x20u8);
    out.push(0x48u8);
    out.push(0x41u8);
    out.push(0x4cu8);
    out.push(0x54u8);
    out.push(0x0au8);
    assert(out@ =~= old(out)@ + halt_message());
}

/// Applying NOT twice restores the value: after a NOT from register `a`
/// and a second NOT reading that destination, the final destination holds
/// what `a` held.
pub proof fn lemma_not_twice(regs: Seq<u16>, first: u16, second: u16)
    requires
        regs.len() == R_COUNT,
        sr1_of(second) == dr_of(first),
    ensures
        not_spec(not_spec(regs, first), second)[dr_of(second)] == regs[sr1_of(first)],
{
    let v: u16 = regs[sr1_of(first)];
    assert(!(!v) == v) by (bit_vector);
    assert(((first >> 9) & 0x7) < 8) by (bit_vector);
    assert(((second >> 9) & 0x7) < 8) by (bit_vector);
}

/// XOR of a register with itself writes 0 and sets the Z flag.
pub proof fn lemma_xor_self_zero(regs: Seq<u16>, instr: u16)
    requires
        regs.len() == R_COUNT,
        sr1_of(instr) == dr_of(instr),
    ensures
        xor_spec(regs, instr)[dr_of(instr)] == 0,
        xor_spec(regs, instr)[R_COND as int] == FL_ZRO,
{
    let v: u16 = regs[dr_of(instr)];
    assert(v ^ v == 0) by (bit_vector);
    assert(((instr >> 9) & 0x7) < 8) by (bit_vector);
}

/// AND of any register with the immediate 0 writes 0 and sets the Z flag.
pub proof fn lemma_and_zero(regs: Seq<u16>, instr: u16)
    requires
        regs.len() == R_COUNT,
        (instr >> 5) & 1 == 1,
        instr & 0x1F == 0,
    ensures
        and_op_spec(regs, instr)[dr_of(instr)] == 0,
        and_op_spec(regs, instr)[R_COND as int] == FL_ZRO,
{
    assert(sign_extend_spec(instr & 0x1F, 5) == 0) by (bit_vector)
        requires
            instr & 0x1F == 0,
    ;
    let v: u16 = regs[sr1_of(instr)];
    assert(v & 0 == 0) by (bit_vector);
    assert(((instr >> 9) & 0x7) < 8) by (bit_vector);
}

/// A JSR whose 11-bit offset has its sign bit set moves PC backward: the
/// new PC is the old one less the offset's magnitude, modulo 2^16.
pub proof fn lemma_jsr_negative_offset(regs: Seq<u16>, instr: u16)
    requires
        regs.len() == R_COUNT,
        (instr >> 11) & 1 == 1,
        instr & 0x400 != 0,
    ensures
        ({
            let pc = regs[R_PC as int] as int;
            let magnitude = 0x800 - (instr & 0x7FF);
            0 < magnitude <= 0x400 && jsr_spec(regs, instr)[R_PC as int] as int == (
            if pc - magnitude >= 0 {
                pc - magnitude
            } else {
                pc - magnitude + 0x10000
            })
        }),
{
    let x: u16 = instr & 0x7FF;
    assert(x >= 0x400 && x < 0x800 && ((x >> 10) & 1 == 1)) by (bit_vector)
        requires
            instr & 0x400 != 0,
            x == instr & 0x7FF,
    ;
    assert((0xFFFFu16 << 11) == 0xF800u16) by (bit_vector);
    assert((x | 0xF800) == x + 0xF800) by (bit_vector)
        requires
            x < 0x800,
    ;
    assert(off11_of(instr) == (x | 0xF800));
}

/// LDI goes through exactly one level of indirection: when neither the
/// pointer cell nor the cell it names is a mapped register, the
/// destination gets `m[m[PC + off9]]`.
pub proof fn lemma_ldi_one_indirection(
    regs: Seq<u16>,
    m: Seq<u16>,
    instr: u16,
    input: Seq<u8>,
    pos: int,
)
    requires
        regs.len() == R_COUNT,
        m.len() == MEM_SIZE,
        0 <= pos <= input.len(),
        wadd(regs[R_PC as int], off9_of(instr)) != MR_KBSR,
        wadd(regs[R_PC as int], off9_of(instr)) != R_ZERO,
        m[wadd(regs[R_PC as int], off9_of(instr)) as int] != MR_KBSR,
        m[wadd(regs[R_PC as int], off9_of(instr)) as int] != R_ZERO,
    ensures
        ldi_spec(regs, m, instr, input, pos).0[dr_of(instr)] == m[m[wadd(
            regs[R_PC as int],
            off9_of(instr),
        ) as int] as int],
{
    assert(((instr >> 9) & 0x7) < 8) by (bit_vector);
}

/// PUTS stops exactly at the first zero word: with `m[start + k]` the
/// first zero word, the output is exactly the `k` low bytes before it.
pub proof fn lemma_puts_stops_at_zero(m: Seq<u16>, start: int, k: int)
    requires
        m.len() == MEM_SIZE,
        0 <= start,
        0 <= k,
        start + k < MEM_SIZE,
        m[start + k] == 0,
        forall|a: int| start <= a < start + k ==> m[a] != 0,
    ensures
        puts_bytes(m, start).len() == k,
        forall|j: int| 0 <= j < k ==> puts_bytes(m, start)[j] == (m[start + j] & 0xFF) as u8,
    decreases k,
{
    if k == 0 {
    } else {
        assert(m[start] != 0);
        lemma_puts_stops_at_zero(m, start + 1, k - 1);
        assert forall|j: int| 0 <= j < k implies puts_bytes(m, start)[j] == (m[start + j] & 0xFF) as u8 by {
            if j > 0 {
                assert(puts_bytes(m, start + 1)[j - 1] == (m[(start + 1) + (j - 1)] & 0xFF) as u8);
            }
        }
    }
}

/// The PUTSP output of exactly the `k` words from `start`: one chunk for
/// each.
pub open spec fn putsp_upto(m: Seq<u16>, start: int, k: int) -> Seq<u8>
    decreases k,
{
    if k <= 0 {
        Seq::empty()
    } else {
        putsp_chunk(m[start]) + putsp_upto(m, start + 1, k - 1)
    }
}

/// PUTSP stops exactly at the first word with a zero high byte: with
/// `m[start + k]` the first such word, the output is exactly the chunks of
/// the `k` words before it and nothing further.
pub proof fn lemma_putsp_stops_at_zero_high(m: Seq<u16>, start: int, k: int)
    requires
        m.len() == MEM_SIZE,
        0 <= start,
        0 <= k,
        start + k < MEM_SIZE,
        m[start + k] >> 8 == 0,
        forall|a: int| start <= a < start + k ==> m[a] >> 8 != 0,
    ensures
        putsp_bytes(m, start) == putsp_upto(m, start, k),
    decreases k,
{
    if k == 0 {
    } else {
        assert(m[start] >> 8 != 0);
        lemma_putsp_stops_at_zero_high(m, start + 1, k - 1);
    }
}

/// Reads the second source register field, bits 2..0 of `instr`.
fn sr2_field(instr: u16) -> (r: usize)
    ensures
        r == (instr & 0x7) as usize,
        r < 8,
{
    let f = instr & 0x7;
    assert(instr & 0x7 < 8) by (bit_vector);
    f as usize
}

/// Reads the 3-bit register field of `instr` that starts at bit `shift`.
fn reg_field(instr: u16, shift: u16) -> (r: usize)
    requires
        shift <= 12,
    ensures
        r == ((instr >> shift) & 0x7) as usize,
        r < 8,
{
    let f = (instr >> shift) & 0x7;
    assert((instr >> shift) & 0x7 < 8) by (bit_vector);
    f as usize
}

} // verus!
