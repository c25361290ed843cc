use vstd::prelude::*;
use vstd::string::StringSliceAdditionalSpecFns;

use crate::memory::{after_read, mem_read, read_value, Memory, KBSR_ADDR, KEY_READY};
use crate::opcodes::{
    add_effect, and_effect, br_effect, decode, jmp_effect, jsr_effect, lea_effect, ld_effect,
    ldi_effect, ldr_effect, not_effect, op_add, op_and, op_br, op_jmp, op_jsr, op_ld, op_ldi,
    op_ldr, op_lea, op_not, op_st, op_sti, op_str, st_effect, sti_effect, str_effect, wrap16,
    Opcode,
};
use crate::registers::{Registers, R_PC};
use crate::trapcodes::{
    execute_trapcodes, takes_key, trap_code, trap_effect, TrapOutcome, HALT_NOTICE, TRAP_GETC,
    TRAP_HALT, TRAP_IN,
};

verus! {

/// Why execution stopped on a fault.
#[derive(Debug, Clone, Copy, PartialEq, Eq, Structural)]
pub enum Fault {
    /// RTI or RES was fetched at `pc`.
    ReservedOpcode { opcode: Opcode, pc: u16 },
    /// A TRAP at `pc` named no routine.
    UnknownTrap { code: u16, pc: u16 },
}

/// The state of the execution loop.
#[derive(Debug, Clone, Copy, PartialEq, Eq, Structural)]
pub enum RunState {
    Running,
    Halted,
    Faulted(Fault),
}

/// What one call of `step` did.
#[derive(Debug, Clone, Copy, PartialEq, Eq, Structural)]
pub enum Step {
    /// One instruction ran.
    Executed,
    /// The next instruction takes a key and none is pending: nothing changed.
    NeedsKey,
    /// The machine is halted or faulted: nothing changed.
    Stopped,
}

/// A whole machine: registers, memory with its pending keys, the characters
/// written and not yet taken, and the state of the loop.
pub struct Machine {
    pub registers: Registers,
    pub memory: Memory,
    pub output: Vec<u8>,
    pub state: RunState,
}

/// Whether the instruction at PC is a GETC or IN trap while no key is pending.
pub open spec fn waits_for_key(regs: Seq<u16>, m: (Seq<u16>, Seq<u8>)) -> bool {
    let pc = regs[R_PC as int];
    let instr = read_value(pc, m);
    &&& decode(instr) == Opcode::TRAP
    &&& takes_key(trap_code(instr))
    &&& after_read(pc, m).1.len() == 0
}

/// Registers, memory, output and state after the instruction at PC runs:
/// it is fetched, PC moves to the next word, and the operation runs. RTI, RES
/// and an unknown trap code leave the registers as they were before the
/// fetch and fault.
pub open spec fn execute_effect(regs: Seq<u16>, m: (Seq<u16>, Seq<u8>), out: Seq<u8>) -> (
    Seq<u16>,
    (Seq<u16>, Seq<u8>),
    Seq<u8>,
    RunState,
) {
    let pc = regs[R_PC as int];
    let instr = read_value(pc, m);
    let m1 = after_read(pc, m);
    let r1 = regs.update(R_PC as int, wrap16(pc + 1));
    match decode(instr) {
        Opcode::ADD => (add_effect(instr, r1), m1, out, RunState::Running),
        Opcode::AND => (and_effect(instr, r1), m1, out, RunState::Running),
        Opcode::NOT => (not_effect(instr, r1), m1, out, RunState::Running),
        Opcode::BR => (br_effect(instr, r1), m1, out, RunState::Running),
        Opcode::JMP => (jmp_effect(instr, r1), m1, out, RunState::Running),
        Opcode::JSR => (jsr_effect(instr, r1), m1, out, RunState::Running),
        Opcode::LEA => (lea_effect(instr, r1), m1, out, RunState::Running),
        Opcode::LD => {
            let (r2, m2) = ld_effect(instr, r1, m1);
            (r2, m2, out, RunState::Running)
        },
        Opcode::LDI => {
            let (r2, m2) = ldi_effect(instr, r1, m1);
            (r2, m2, out, RunState::Running)
        },
        Opcode::LDR => {
            let (r2, m2) = ldr_effect(instr, r1, m1);
            (r2, m2, out, RunState::Running)
        },
        Opcode::ST => {
            let (r2, m2) = st_effect(instr, r1, m1);
            (r2, m2, out, RunState::Running)
        },
        Opcode::STI => {
            let (r2, m2) = sti_effect(instr, r1, m1);
            (r2, m2, out, RunState::Running)
        },
        Opcode::STR => {
            let (r2, m2) = str_effect(instr, r1, m1);
            (r2, m2, out, RunState::Running)
        },
        Opcode::TRAP => {
            let (r2, m2, out2, outcome) = trap_effect(trap_code(instr), r1, m1, out);
            match outcome {
                TrapOutcome::Continue => (r2, m2, out2, RunState::Running),
                TrapOutcome::Halt => (r2, m2, out2, RunState::Halted),
                TrapOutcome::Unknown => (
                    regs,
                    m2,
                    out2,
                    RunState::Faulted(Fault::UnknownTrap { code: trap_code(instr), pc }),
                ),
            }
        },
        Opcode::RTI => (
            regs,
            m1,
            out,
            RunState::Faulted(Fault::ReservedOpcode { opcode: Opcode::RTI, pc }),
        ),
        Opcode::RES => (
            regs,
            m1,
            out,
            RunState::Faulted(Fault::ReservedOpcode { opcode: Opcode::RES, pc }),
        ),
    }
}

/// A TRAP HALT at PC takes a running machine to `Halted`, with PC past the
/// trap and the halt notice written; `step` then runs nothing more.
pub proof fn lemma_halt_stops(regs: Seq<u16>, m: (Seq<u16>, Seq<u8>), out: Seq<u8>)
    requires
        decode(read_value(regs[R_PC as int], m)) == Opcode::TRAP,
        trap_code(read_value(regs[R_PC as int], m)) == TRAP_HALT,
    ensures
        execute_effect(regs, m, out).3 == RunState::Halted,
        execute_effect(regs, m, out).0 == regs.update(
            R_PC as int,
            wrap16(regs[R_PC as int] + 1),
        ),
        execute_effect(regs, m, out).2 == out + HALT_NOTICE.spec_bytes(),
        !waits_for_key(regs, m),
{
}

/// RTI or RES at PC faults at that instruction: the registers stay as they
/// were, nothing is written, and memory changes by the fetch alone.
pub proof fn lemma_reserved_faults(regs: Seq<u16>, m: (Seq<u16>, Seq<u8>), out: Seq<u8>)
    requires
        decode(read_value(regs[R_PC as int], m)).spec_is_reserved(),
    ensures
        execute_effect(regs, m, out) == (
            regs,
            after_read(regs[R_PC as int], m),
            out,
            RunState::Faulted(
                Fault::ReservedOpcode {
                    opcode: decode(read_value(regs[R_PC as int], m)),
                    pc: regs[R_PC as int],
                },
            ),
        ),
        !waits_for_key(regs, m),
{
}

impl Machine {
    pub open spec fn wf(&self) -> bool {
        self.memory.wf()
    }

    /// A machine ready to run: zero memory, registers as `Registers::new`
    /// leaves them, nothing written.
    pub fn new() -> (r: Machine)
        ensures
            r.wf(),
            r.registers@ == Registers::new_spec(),
            r.memory.cells@ == Seq::new(0x10000, |i: int| 0u16),
            r.memory.keys@.len() == 0,
            r.output@.len() == 0,
            r.state == RunState::Running,
    {
        Machine {
            registers: Registers::new(),
            memory: Memory::new(),
            output: Vec::new(),
            state: RunState::Running,
        }
    }

    /// Runs one instruction of a running machine: fetch at PC, move PC to the
    /// next word, then run the operation. A GETC or IN with no pending key
    /// waits instead, and a machine that is no longer running stays as it is.
    pub fn step(&mut self) -> (r: Step)
        requires
            old(self).wf(),
        ensures
            final(self).wf(),
            old(self).state != RunState::Running ==> r == Step::Stopped,
            old(self).state == RunState::Running && waits_for_key(
                old(self).registers@,
                old(self).memory@,
            ) ==> r == Step::NeedsKey,
            r != Step::Executed ==> final(self).registers@ == old(self).registers@
                && final(self).memory@ == old(self).memory@ && final(self).output@ == old(
                self,
            ).output@ && final(self).state == old(self).state,
            old(self).state == RunState::Running && !waits_for_key(
                old(self).registers@,
                old(self).memory@,
            ) ==> r == Step::Executed && (
                final(self).registers@,
                final(self).memory@,
                final(self).output@,
                final(self).state,
            ) == execute_effect(old(self).registers@, old(self).memory@, old(self).output@),
    {
        match self.state {
            RunState::Running => {},
            _ => {
                return Step::Stopped;
            },
        }
        let pc = self.registers.get_pc();
        proof {
            assert(KEY_READY >> 12 == 8) by (bit_vector);
            assert(0u16 >> 12 == 0) by (bit_vector);
        }
        if pc != KBSR_ADDR {
            let next = self.memory.cells[pc as usize];
            let code = next & 0xFF;
            if next >> 12 == 15 && (code == TRAP_GETC || code == TRAP_IN)
                && self.memory.keys.len() == 0 {
                return Step::NeedsKey;
            }
        }
        let instr = mem_read(pc, &mut self.memory);
        self.registers.update_pc(pc.wrapping_add(1));
        match Opcode::from_instr(instr) {
            Opcode::ADD => {
                let _ = op_add(instr, &mut self.registers);
            },
            Opcode::AND => {
                let _ = op_and(instr, &mut self.registers);
            },
            Opcode::NOT => {
                let _ = op_not(instr, &mut self.registers);
            },
            Opcode::BR => {
                let _ = op_br(instr, &mut self.registers);
            },
            Opcode::JMP => {
                let _ = op_jmp(instr, &mut self.registers);
            },
            Opcode::JSR => {
                let _ = op_jsr(instr, &mut self.registers);
            },
            Opcode::LEA => {
                let _ = op_lea(instr, &mut self.registers);
            },
            Opcode::LD => {
                let _ = op_ld(instr, &mut self.registers, &mut self.memory);
            },
            Opcode::LDI => {
                let _ = op_ldi(instr, &mut self.registers, &mut self.memory);
            },
            Opcode::LDR => {
                let _ = op_ldr(instr, &mut self.registers, &mut self.memory);
            },
            Opcode::ST => {
                let _ = op_st(instr, &mut self.registers, &mut self.memory);
            },
            Opcode::STI => {
                let _ = op_sti(instr, &mut self.registers, &mut self.memory);
            },
            Opcode::STR => {
                let _ = op_str(instr, &mut self.registers, &mut self.memory);
            },
            Opcode::TRAP => {
                match execute_trapcodes(
                    instr,
                    &mut self.registers,
                    &mut self.memory,
                    &mut self.output,
                ) {
                    TrapOutcome::Continue => {},
                    TrapOutcome::Halt => {
                        self.state = RunState::Halted;
                    },
                    TrapOutcome::Unknown => {
                        self.registers.update_pc(pc);
                        self.state = RunState::Faulted(
                            Fault::UnknownTrap { code: instr & 0xFF, pc },
                        );
                    },
                }
            },
            Opcode::RTI => {
                self.registers.update_pc(pc);
                self.state = RunState::Faulted(Fault::ReservedOpcode { opcode: Opcode::RTI, pc });
            },
            Opcode::RES => {
                self.registers.update_pc(pc);
                self.state = RunState::Faulted(Fault::ReservedOpcode { opcode: Opcode::RES, pc });
            },
        }
        Step::Executed
    }

    /// Hands over the characters written so far, and forgets them.
    pub fn take_output(&mut self) -> (r: Vec<u8>)
        ensures
            r@ == old(self).output@,
            final(self).output@.len() == 0,
            final(self).registers == old(self).registers,
            final(self).memory == old(self).memory,
            final(self).state == old(self).state,
    {
        let mut taken: Vec<u8> = Vec::new();
        std::mem::swap(&mut taken, &mut self.output);
        taken
    }
}

} // verus!
