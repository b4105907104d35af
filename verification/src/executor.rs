//! The execution driver: the machine state, the fetch-decode-execute step,
//! and a driver that runs steps until the program halts, faults, wants
//! keyboard input that is not there, or exhausts a step budget.

use vstd::prelude::*;
use crate::instructions::{
    add_op_spec, and_op_spec, branch_spec, jsr_spec, jump_spec, ld_spec, ldi_spec, ldr_spec,
    dr_of, imm5_of, lea_spec, not_spec, off6_of, off9_of, sr1_of, sr2_of, st_spec, sti_spec,
    str_spec, trap_spec, wadd, xor_spec, Instructions, StepResult, StepStatus,
};
use crate::memory::{mem_peek, mem_read, mem_read_spec, Memory, MEM_SIZE, MR_KBSR};
use crate::registers::{flag_for, Registers, FL_NEG, FL_POS, FL_ZRO, R_COND, R_COUNT, R_PC};

verus! {

/// The address where execution starts.
pub const PC_START: u16 = 0x3000;

/// The whole machine: its memory and its register file.
pub struct VM {
    pub memory: Memory,
    pub registers: Registers,
}

impl VM {
    pub open spec fn wf(&self) -> bool {
        self.memory.wf() && self.registers.wf()
    }

    /// A machine with every memory word and every register zeroed.
    pub fn init() -> (vm: VM)
        ensures
            vm.wf(),
            forall|a: int| 0 <= a < MEM_SIZE ==> vm.memory@[a] == 0,
            forall|i: int| 0 <= i < R_COUNT ==> vm.registers@[i] == 0,
    {
        VM { memory: Memory::init(), registers: Registers::init() }
    }
}

/// One machine step, at the specification level.
pub struct StepSpec {
    pub mem: Seq<u16>,
    pub regs: Seq<u16>,
    pub pos: int,
    pub out: Seq<u8>,
    pub status: StepStatus,
}

/// What one step does: the instruction at PC is fetched (a load, with the
/// mapped-register effects), PC moves past it, and the opcode in its top
/// four bits picks the transition. A GETC or IN trap that would find no
/// keyboard byte left ends in `NeedInput` with the machine unchanged.
pub open spec fn step_spec(m: Seq<u16>, regs: Seq<u16>, input: Seq<u8>, pos: int) -> StepSpec
    recommends
        regs.len() == R_COUNT,
        m.len() == MEM_SIZE,
        0 <= pos <= input.len(),
{
    let fetch = mem_read_spec(m, regs[R_PC as int], input, pos);
    let m1 = fetch.0;
    let instr = fetch.1;
    let p1 = fetch.2;
    let regs1 = regs.update(R_PC as int, wadd(regs[R_PC as int], 1));
    let op = instr >> 12;
    if op == 15 && (instr & 0xFF == 0x20 || instr & 0xFF == 0x23) && p1 >= input.len() {
        StepSpec { mem: m, regs: regs, pos: pos, out: Seq::empty(), status: StepStatus::NeedInput }
    } else if op == 0 {
        StepSpec {
            mem: m1,
            regs: branch_spec(regs1, instr),
            pos: p1,
            out: Seq::empty(),
            status: StepStatus::Running,
        }
    } else if op == 1 {
        StepSpec {
            mem: m1,
            regs: add_op_spec(regs1, instr),
            pos: p1,
            out: Seq::empty(),
            status: StepStatus::Running,
        }
    } else if op == 2 {
        let s = ld_spec(regs1, m1, instr, input, p1);
        StepSpec { mem: s.1, regs: s.0, pos: s.2, out: Seq::empty(), status: StepStatus::Running }
    } else if op == 3 {
        StepSpec {
            mem: st_spec(regs1, m1, instr),
            regs: regs1,
            pos: p1,
            out: Seq::empty(),
            status: StepStatus::Running,
        }
    } else if op == 4 {
        StepSpec {
            mem: m1,
            regs: jsr_spec(regs1, instr),
            pos: p1,
            out: Seq::empty(),
            status: StepStatus::Running,
        }
    } else if op == 5 {
        StepSpec {
            mem: m1,
            regs: and_op_spec(regs1, instr),
            pos: p1,
            out: Seq::empty(),
            status: StepStatus::Running,
        }
    } else if op == 6 {
        let s = ldr_spec(regs1, m1, instr, input, p1);
        StepSpec { mem: s.1, regs: s.0, pos: s.2, out: Seq::empty(), status: StepStatus::Running }
    } else if op == 7 {
        StepSpec {
            mem: str_spec(regs1, m1, instr),
            regs: regs1,
            pos: p1,
            out: Seq::empty(),
            status: StepStatus::Running,
        }
    } else if op == 8 {
        StepSpec { mem: m1, regs: regs1, pos: p1, out: Seq::empty(), status: StepStatus::Rti }
    } else if op == 9 {
        StepSpec {
            mem: m1,
            regs: not_spec(regs1, instr),
            pos: p1,
            out: Seq::empty(),
            status: StepStatus::Running,
        }
    } else if op == 10 {
        let s = ldi_spec(regs1, m1, instr, input, p1);
        StepSpec { mem: s.1, regs: s.0, pos: s.2, out: Seq::empty(), status: StepStatus::Running }
    } else if op == 11 {
        let s = sti_spec(regs1, m1, instr, input, p1);
        StepSpec { mem: s.0, regs: regs1, pos: s.1, out: Seq::empty(), status: StepStatus::Running }
    } else if op == 12 {
        StepSpec {
            mem: m1,
            regs: jump_spec(regs1, instr),
            pos: p1,
            out: Seq::empty(),
            status: StepStatus::Running,
        }
    } else if op == 13 {
        StepSpec {
            mem: m1,
            regs: xor_spec(regs1, instr),
            pos: p1,
            out: Seq::empty(),
            status: StepStatus::Running,
        }
    } else if op == 14 {
        StepSpec {
            mem: m1,
            regs: lea_spec(regs1, instr),
            pos: p1,
            out: Seq::empty(),
            status: StepStatus::Running,
        }
    } else {
        let t = trap_spec(regs1, m1, instr, input, p1);
        StepSpec { mem: m1, regs: t.regs, pos: t.pos, out: t.out, status: t.status }
    }
}

/// The condition register is one-hot in every reachable state that a
/// flag-updating instruction produces: after a step whose opcode is ADD,
/// LD, AND, LDR, NOT, LDI, XOR or LEA, COND holds exactly one of the P, Z
/// and N flags.
pub proof fn lemma_step_flags_one_hot(m: Seq<u16>, regs: Seq<u16>, input: Seq<u8>, pos: int)
    requires
        regs.len() == R_COUNT,
        m.len() == MEM_SIZE,
        0 <= pos <= input.len(),
    ensures
        ({
            let instr = mem_read_spec(m, regs[R_PC as int], input, pos).1;
            let op = instr >> 12;
            (op == 1 || op == 2 || op == 5 || op == 6 || op == 9 || op == 10 || op == 13 || op
                == 14) ==> {
                let c = step_spec(m, regs, input, pos).regs[R_COND as int];
                c == FL_POS || c == FL_ZRO || c == FL_NEG
            }
        }),
{
    let fetch = mem_read_spec(m, regs[R_PC as int], input, pos);
    let instr = fetch.1;
    let m1 = fetch.0;
    let p1 = fetch.2;
    let op = instr >> 12;
    let regs1 = regs.update(R_PC as int, wadd(regs[R_PC as int], 1));
    let s = step_spec(m, regs, input, pos);
    assert(((instr >> 9) & 0x7) < 8) by (bit_vector);
    if op == 1 {
        let v = if (instr >> 5) & 1 == 1 {
            wadd(regs1[sr1_of(instr)], imm5_of(instr))
        } else {
            wadd(regs1[sr1_of(instr)], regs1[sr2_of(instr)])
        };
        assert(s.regs[R_COND as int] == flag_for(v));
    } else if op == 2 {
        let v = mem_read_spec(m1, wadd(regs1[R_PC as int], off9_of(instr)), input, p1).1;
        assert(s.regs[R_COND as int] == flag_for(v));
    } else if op == 5 {
        let v = if (instr >> 5) & 1 == 1 {
            regs1[sr1_of(instr)] & imm5_of(instr)
        } else {
            regs1[sr1_of(instr)] & regs1[sr2_of(instr)]
        };
        assert(s.regs[R_COND as int] == flag_for(v));
    } else if op == 6 {
        let v = mem_read_spec(m1, wadd(regs1[sr1_of(instr)], off6_of(instr)), input, p1).1;
        assert(s.regs[R_COND as int] == flag_for(v));
    } else if op == 9 {
        let v = !regs1[sr1_of(instr)];
        assert(s.regs[R_COND as int] == flag_for(v));
    } else if op == 10 {
        let r1 = mem_read_spec(m1, wadd(regs1[R_PC as int], off9_of(instr)), input, p1);
        let v = mem_read_spec(r1.0, r1.1, input, r1.2).1;
        assert(s.regs[R_COND as int] == flag_for(v));
    } else if op == 13 {
        let v = regs1[dr_of(instr)] ^ regs1[sr1_of(instr)];
        assert(s.regs[R_COND as int] == flag_for(v));
    } else if op == 14 {
        let v = wadd(regs1[R_PC as int], off9_of(instr));
        assert(s.regs[R_COND as int] == flag_for(v));
    }
}

/// Performs one fetch-decode-execute step of the machine.
pub fn step(vm: &mut VM, input: &Vec<u8>, pos: usize) -> (r: StepResult)
    requires
        old(vm).wf(),
        pos <= input@.len(),
    ensures
        final(vm).wf(),
        ({
            let s = step_spec(old(vm).memory@, old(vm).registers@, input@, pos as int);
            final(vm).memory@ == s.mem && final(vm).registers@ == s.regs && r.next_pos as int
                == s.pos && r.output@ == s.out && r.status == s.status
        }),
        pos <= r.next_pos <= input@.len(),
{
    let pc = vm.registers.get(R_PC);
    let peeked = mem_peek(&vm.memory, pc, input, pos);
    let fetch_takes: usize = if pc == MR_KBSR && pos < input.len() {
        1
    } else {
        0
    };
    if peeked >> 12 == 15 && ((peeked & 0xFF) == 0x20 || (peeked & 0xFF) == 0x23) && pos
        + fetch_takes >= input.len() {
        return StepResult { output: Vec::new(), next_pos: pos, status: StepStatus::NeedInput };
    }
    let (instr, p1) = mem_read(&mut vm.memory, pc, input, pos);
    let pc1 = pc.wrapping_add(1);
    vm.registers.set(R_PC, pc1);
    let op = instr >> 12;
    assert(instr >> 12 < 16) by (bit_vector);
    match Instructions::decode(op) {
        Instructions::BR => {
            Instructions::branch(&mut vm.registers, instr);
            StepResult { output: Vec::new(), next_pos: p1, status: StepStatus::Running }
        },
        Instructions::ADD => {
            Instructions::add(&mut vm.registers, instr);
            StepResult { output: Vec::new(), next_pos: p1, status: StepStatus::Running }
        },
        Instructions::LD => {
            let p2 = Instructions::load(&mut vm.registers, instr, &mut vm.memory, input, p1);
            StepResult { output: Vec::new(), next_pos: p2, status: StepStatus::Running }
        },
        Instructions::ST => {
            Instructions::store(&mut vm.registers, instr, &mut vm.memory);
            StepResult { output: Vec::new(), next_pos: p1, status: StepStatus::Running }
        },
        Instructions::JSR => {
            Instructions::jump_register(&mut vm.registers, instr);
            StepResult { output: Vec::new(), next_pos: p1, status: StepStatus::Running }
        },
        Instructions::AND => {
            Instructions::and(&mut vm.registers, instr);
            StepResult { output: Vec::new(), next_pos: p1, status: StepStatus::Running }
        },
        Instructions::LDR => {
            let p2 = Instructions::load_registers(
                &mut vm.registers,
                instr,
                &mut vm.memory,
                input,
                p1,
            );
            StepResult { output: Vec::new(), next_pos: p2, status: StepStatus::Running }
        },
        Instructions::STR => {
            Instructions::store_registers(&mut vm.registers, instr, &mut vm.memory);
            StepResult { output: Vec::new(), next_pos: p1, status: StepStatus::Running }
        },
        Instructions::RTI => {
            let st = Instructions::rti();
            StepResult { output: Vec::new(), next_pos: p1, status: st }
        },
        Instructions::NOT => {
            Instructions::bitwise_not(&mut vm.registers, instr);
            StepResult { output: Vec::new(), next_pos: p1, status: StepStatus::Running }
        },
        Instructions::LDI => {
            let p2 = Instructions::load_indirect(
                &mut vm.registers,
                instr,
                &mut vm.memory,
                input,
                p1,
            );
            StepResult { output: Vec::new(), next_pos: p2, status: StepStatus::Running }
        },
        Instructions::STI => {
            let p2 = Instructions::store_indirect(
                &mut vm.registers,
                instr,
                &mut vm.memory,
                input,
                p1,
            );
            StepResult { output: Vec::new(), next_pos: p2, status: StepStatus::Running }
        },
        Instructions::JMP => {
            Instructions::jump(&mut vm.registers, instr);
            StepResult { output: Vec::new(), next_pos: p1, status: StepStatus::Running }
        },
        Instructions::XOR => {
            Instructions::xor(&mut vm.registers, instr);
            StepResult { output: Vec::new(), next_pos: p1, status: StepStatus::Running }
        },
        Instructions::LEA => {
            Instructions::effective_address(&mut vm.registers, instr);
            StepResult { output: Vec::new(), next_pos: p1, status: StepStatus::Running }
        },
        Instructions::TRAP => {
            let mut flag = true;
            Instructions::trap(&mut vm.registers, instr, &vm.memory, &mut flag, input, p1)
        },
    }
}

/// How a bounded run ended.
#[derive(Clone, Copy, Debug, PartialEq, Eq, Structural)]
pub enum RunStatus {
    /// A HALT trap retired.
    Halted,
    /// A GETC or IN trap wanted a keyboard byte that `input` does not hold.
    NeedInput,
    /// An RTI instruction was fetched; it is unsupported and fatal.
    Rti,
    /// A TRAP instruction named a vector with no handler; fatal.
    UnknownTrap,
    /// The step budget ran out with the machine still running.
    OutOfSteps,
}

/// The run outcome that a stopping step yields.
pub open spec fn run_status_of(s: StepStatus) -> RunStatus {
    match s {
        StepStatus::Running => RunStatus::OutOfSteps,
        StepStatus::NeedInput => RunStatus::NeedInput,
        StepStatus::Halted => RunStatus::Halted,
        StepStatus::Rti => RunStatus::Rti,
        StepStatus::UnknownTrap => RunStatus::UnknownTrap,
    }
}

/// A bounded run, at the specification level.
pub struct RunSpec {
    pub mem: Seq<u16>,
    pub regs: Seq<u16>,
    pub pos: int,
    pub out: Seq<u8>,
    pub status: RunStatus,
}

/// What up to `fuel` steps do, concatenating their output, stopping at the
/// first step that does not keep running.
pub open spec fn run_spec(m: Seq<u16>, regs: Seq<u16>, input: Seq<u8>, pos: int, fuel: nat) -> RunSpec
    recommends
        regs.len() == R_COUNT,
        m.len() == MEM_SIZE,
        0 <= pos <= input.len(),
    decreases fuel,
{
    if fuel == 0 {
        RunSpec { mem: m, regs: regs, pos: pos, out: Seq::empty(), status: RunStatus::OutOfSteps }
    } else {
        let s = step_spec(m, regs, input, pos);
        if s.status == StepStatus::Running {
            let rest = run_spec(s.mem, s.regs, input, s.pos, (fuel - 1) as nat);
            RunSpec {
                mem: rest.mem,
                regs: rest.regs,
                pos: rest.pos,
                out: s.out + rest.out,
                status: rest.status,
            }
        } else {
            RunSpec { mem: s.mem, regs: s.regs, pos: s.pos, out: s.out, status: run_status_of(s.status) }
        }
    }
}

/// The outcome of a bounded run: the bytes printed, the count of keyboard
/// bytes consumed, and why the run stopped.
pub struct RunResult {
    pub output: Vec<u8>,
    pub next_pos: usize,
    pub status: RunStatus,
}

/// Sets PC to the start address and steps the machine until it halts,
/// faults, wants a keyboard byte that `input` does not hold, or has taken
/// `max_steps` steps.
pub fn run(vm: &mut VM, input: &Vec<u8>, max_steps: usize) -> (r: RunResult)
    requires
        old(vm).wf(),
    ensures
        final(vm).wf(),
        ({
            let s = run_spec(
                old(vm).memory@,
                old(vm).registers@.update(R_PC as int, PC_START),
                input@,
                0,
                max_steps as nat,
            );
            final(vm).memory@ == s.mem && final(vm).registers@ == s.regs && r.next_pos as int
                == s.pos && r.output@ == s.out && r.status == s.status
        }),
{
    vm.registers.set(R_PC, PC_START);
    let ghost m0 = vm.memory@;
    let ghost r0 = vm.registers@;
    let mut out: Vec<u8> = Vec::new();
    let mut pos: usize = 0;
    let mut steps: usize = 0;
    let mut status: RunStatus = RunStatus::OutOfSteps;
    let mut done: bool = false;
    while !done && steps < max_steps
        invariant
            vm.wf(),
            pos <= input@.len(),
            steps <= max_steps,
            !done ==> status == RunStatus::OutOfSteps,
            ({
                let t = run_spec(m0, r0, input@, 0, max_steps as nat);
                if done {
                    t.mem == vm.memory@ && t.regs == vm.registers@ && t.pos == pos as int && t.out
                        == out@ && t.status == status
                } else {
                    let c = run_spec(
                        vm.memory@,
                        vm.registers@,
                        input@,
                        pos as int,
                        (max_steps - steps) as nat,
                    );
                    t.mem == c.mem && t.regs == c.regs && t.pos == c.pos && t.out == out@ + c.out
                        && t.status == c.status
                }
            }),
        decreases max_steps - steps + (if done { 0int } else { 1 }),
    {
        let ghost pre_mem = vm.memory@;
        let ghost pre_regs = vm.registers@;
        let ghost pre_pos = pos as int;
        let ghost pre_out = out@;
        let ghost fuel: nat = (max_steps - steps) as nat;
        let res = step(vm, input, pos);
        let mut o = res.output;
        out.append(&mut o);
        pos = res.next_pos;
        steps = steps + 1;
        if res.status == StepStatus::Running {
            proof {
                let s = step_spec(pre_mem, pre_regs, input@, pre_pos);
                let c = run_spec(
                    vm.memory@,
                    vm.registers@,
                    input@,
                    pos as int,
                    (max_steps - steps) as nat,
                );
                assert((pre_out + s.out) + c.out =~= pre_out + (s.out + c.out));
            }
        } else {
            done = true;
            status = if res.status == StepStatus::NeedInput {
                RunStatus::NeedInput
            } else if res.status == StepStatus::Halted {
                RunStatus::Halted
            } else if res.status == StepStatus::Rti {
                RunStatus::Rti
            } else {
                RunStatus::UnknownTrap
            };
        }
    }
    if !done {
        proof {
            assert(out@ + Seq::<u8>::empty() =~= out@);
        }
    }
    RunResult { output: out, next_pos: pos, status }
}

} // verus!
