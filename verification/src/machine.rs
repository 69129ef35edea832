//! The machine as mathematics: its state as sequences, and each instruction
//! as a function from the state before to the state after.
//!
//! The program counter of a state handed to one of the `after_` functions of
//! an instruction already points behind that instruction.

use vstd::prelude::*;

use crate::alu::{
    branch_taken, load_shape, loaded_value, op_imm_result, op_imm_word_result, op_result,
    op_word_result, store_width,
};
use crate::bus::{bus_load_result, bus_store_result, DRAM_BASE};
use crate::csr::{csr_read, csr_write, CSR_COUNT, INSTRET, RDCYCLE, RDTIME};
use crate::decode::{bits, fields_of, imm_b_of, imm_i_of, imm_j_of, imm_s_of, imm_u_of};
use crate::dram::{image, AccessError, DRAM_SIZE};
use crate::word::wrap64;

verus! {

/// Why an instruction could not be executed.
#[derive(Debug, Clone, Copy, PartialEq, Eq, Structural)]
pub enum ExecError {
    /// The major opcode names no instruction family; the all-zero word is
    /// one such.
    IllegalOpcode,
    /// The minor opcodes name no instruction of the family.
    IllegalFunct,
    /// The bus refused the access of a load or a store.
    Bus(AccessError),
}

/// Why a run came to its end.
#[derive(Debug, Clone, Copy, PartialEq, Eq, Structural)]
pub enum Halt {
    /// No instruction could be fetched at the program counter.
    Fetch,
    /// The instruction that was fetched could not be executed.
    Exec(ExecError),
    /// An instruction retired and left the program counter at zero.
    ZeroPc,
    /// The run was given a number of steps and has taken them all.
    OutOfSteps,
}

/// The architectural state.
#[verifier::ext_equal]
pub struct Machine {
    /// The 32 general-purpose registers.
    pub regs: Seq<u64>,
    /// The program counter.
    pub pc: u64,
    /// The 4096 CSR slots, as stored.
    pub csrs: Seq<u64>,
    /// The bytes of DRAM.
    pub mem: Seq<u8>,
}

impl Machine {
    /// The shape of every state that a machine passes through: the files are
    /// of their size, and register 0 holds 0.
    pub open spec fn wf(self) -> bool {
        &&& self.regs.len() == 32
        &&& self.regs[0] == 0
        &&& self.csrs.len() == CSR_COUNT
        &&& self.mem.len() == DRAM_SIZE
    }

    /// The state with `value` in register `rd`. Register 0 is hard-wired to
    /// zero: a write to it is dropped.
    pub open spec fn set_reg(self, rd: int, value: u64) -> Machine {
        if rd == 0 {
            self
        } else {
            Machine { regs: self.regs.update(rd, value), ..self }
        }
    }

    /// The state with the program counter at `pc`.
    pub open spec fn set_pc(self, pc: u64) -> Machine {
        Machine { pc, ..self }
    }

    /// The state after a write of `value` to the CSR at `addr`.
    pub open spec fn set_csr(self, addr: int, value: u64) -> Machine {
        Machine { csrs: csr_write(self.csrs, addr, value), ..self }
    }

    /// The state with `mem` for memory.
    pub open spec fn set_mem(self, mem: Seq<u8>) -> Machine {
        Machine { mem, ..self }
    }
}

/// An executable step that was to take `before` to `want` has done so: it
/// returned `r` and left `after`, which is `before` where it failed.
pub open spec fn follows(
    before: Machine,
    after: Machine,
    r: Result<(), ExecError>,
    want: Result<Machine, ExecError>,
) -> bool {
    match want {
        Ok(s) => r is Ok && after == s,
        Err(e) => r == Err::<(), ExecError>(e) && after == before,
    }
}

/// The state after reset with the image `code` loaded: the program counter
/// at the base of DRAM, the stack pointer at its top, all else zero.
pub open spec fn reset(code: Seq<u8>) -> Machine {
    Machine {
        regs: Seq::new(
            32,
            |i: int|
                if i == 2 {
                    (DRAM_BASE + DRAM_SIZE) as u64
                } else {
                    0u64
                },
        ),
        pc: DRAM_BASE,
        csrs: Seq::new(CSR_COUNT as nat, |i: int| 0u64),
        mem: image(code),
    }
}

/// The target of a jump relative to the instruction itself, which lies 4
/// below the program counter.
pub open spec fn relative_target(pc: u64, imm: u64) -> u64 {
    wrap64(wrap64(pc + imm) - 4)
}

/// A load: `rd` gets what memory holds at `regs[rs1] + imm`.
pub open spec fn after_load(s: Machine, inst: u32) -> Result<Machine, ExecError> {
    let f = fields_of(inst);
    let addr = wrap64(s.regs[f.rs1 as int] + imm_i_of(inst));
    match load_shape(f.funct3) {
        None => Err(ExecError::IllegalFunct),
        Some((width, signed)) => match bus_load_result(s.mem, addr, width) {
            Err(e) => Err(ExecError::Bus(e)),
            Ok(raw) => Ok(s.set_reg(f.rd as int, loaded_value(raw, width, signed))),
        },
    }
}

/// A store: memory at `regs[rs1] + imm` gets the low bits of `regs[rs2]`.
pub open spec fn after_store(s: Machine, inst: u32) -> Result<Machine, ExecError> {
    let f = fields_of(inst);
    let addr = wrap64(s.regs[f.rs1 as int] + imm_s_of(inst));
    match store_width(f.funct3) {
        None => Err(ExecError::IllegalFunct),
        Some(width) => match bus_store_result(s.mem, addr, width, s.regs[f.rs2 as int]) {
            Err(e) => Err(ExecError::Bus(e)),
            Ok(mem) => Ok(s.set_mem(mem)),
        },
    }
}

/// The state with what an arithmetic instruction computed in `rd`, if the
/// instruction exists.
pub open spec fn with_result(s: Machine, rd: int, result: Option<u64>) -> Result<
    Machine,
    ExecError,
> {
    match result {
        None => Err(ExecError::IllegalFunct),
        Some(value) => Ok(s.set_reg(rd, value)),
    }
}

/// A register-immediate instruction of the 64-bit family.
pub open spec fn after_op_imm(s: Machine, inst: u32) -> Result<Machine, ExecError> {
    let f = fields_of(inst);
    with_result(
        s,
        f.rd as int,
        op_imm_result(f.funct3, f.funct7, s.regs[f.rs1 as int], imm_i_of(inst)),
    )
}

/// A register-immediate instruction of the 32-bit family.
pub open spec fn after_op_imm_word(s: Machine, inst: u32) -> Result<Machine, ExecError> {
    let f = fields_of(inst);
    with_result(
        s,
        f.rd as int,
        op_imm_word_result(f.funct3, f.funct7, s.regs[f.rs1 as int], imm_i_of(inst)),
    )
}

/// A register-register instruction of the 64-bit family.
pub open spec fn after_op(s: Machine, inst: u32) -> Result<Machine, ExecError> {
    let f = fields_of(inst);
    with_result(
        s,
        f.rd as int,
        op_result(f.funct3, f.funct7, s.regs[f.rs1 as int], s.regs[f.rs2 as int]),
    )
}

/// A register-register instruction of the 32-bit family.
pub open spec fn after_op_word(s: Machine, inst: u32) -> Result<Machine, ExecError> {
    let f = fields_of(inst);
    with_result(
        s,
        f.rd as int,
        op_word_result(f.funct3, f.funct7, s.regs[f.rs1 as int], s.regs[f.rs2 as int]),
    )
}

/// A conditional branch: where it is taken, control goes to the instruction's
/// own address plus the immediate.
pub open spec fn after_branch(s: Machine, inst: u32) -> Result<Machine, ExecError> {
    let f = fields_of(inst);
    match branch_taken(f.funct3, s.regs[f.rs1 as int], s.regs[f.rs2 as int]) {
        None => Err(ExecError::IllegalFunct),
        Some(taken) => if taken {
            Ok(s.set_pc(relative_target(s.pc, imm_b_of(inst))))
        } else {
            Ok(s)
        },
    }
}

/// `lui`: `rd` gets the immediate.
pub open spec fn after_lui(s: Machine, inst: u32) -> Result<Machine, ExecError> {
    Ok(s.set_reg(fields_of(inst).rd as int, imm_u_of(inst)))
}

/// `auipc`: `rd` gets the instruction's own address plus the immediate.
pub open spec fn after_auipc(s: Machine, inst: u32) -> Result<Machine, ExecError> {
    Ok(s.set_reg(fields_of(inst).rd as int, wrap64(wrap64(s.pc - 4) + imm_u_of(inst))))
}

/// `jal`: `rd` gets the address of the next instruction, and control goes to
/// the instruction's own address plus the immediate.
pub open spec fn after_jal(s: Machine, inst: u32) -> Result<Machine, ExecError> {
    Ok(s.set_reg(fields_of(inst).rd as int, s.pc).set_pc(relative_target(s.pc, imm_j_of(inst))))
}

/// `jalr`: `rd` gets the address of the next instruction, then control goes
/// to `regs[rs1] + imm` with its lowest bit cleared. The link is written
/// first: where `rd` and `rs1` are one register other than register 0, the
/// target is counted from the link.
pub open spec fn after_jalr(s: Machine, inst: u32) -> Result<Machine, ExecError> {
    let f = fields_of(inst);
    let linked = s.set_reg(f.rd as int, s.pc);
    Ok(linked.set_pc(wrap64(linked.regs[f.rs1 as int] + imm_i_of(inst)) & !1u64))
}

/// A CSR instruction on the CSR at address `inst[31:20]`.
///
/// The register forms take their source from `regs[rs1]`, the immediate
/// forms take the number of `rs1` itself. The forms that write the source
/// write it whatever it is; the forms that set or clear bits write only
/// where the `rs1` field is not zero, and read their source after `rd` was
/// written.
pub open spec fn after_csr(s: Machine, inst: u32) -> Result<Machine, ExecError> {
    let f = fields_of(inst);
    let addr = bits(inst, 31, 20) as int;
    let before = csr_read(s.csrs, addr);
    if f.funct3 == 1 {
        Ok(s.set_csr(addr, s.regs[f.rs1 as int]).set_reg(f.rd as int, before))
    } else if f.funct3 == 5 {
        Ok(s.set_csr(addr, f.rs1 as u64).set_reg(f.rd as int, before))
    } else if f.funct3 == 2 || f.funct3 == 3 || f.funct3 == 6 || f.funct3 == 7 {
        let read = s.set_reg(f.rd as int, before);
        let source = if f.funct3 == 2 || f.funct3 == 3 {
            read.regs[f.rs1 as int]
        } else {
            f.rs1 as u64
        };
        let value = if f.funct3 == 2 || f.funct3 == 6 {
            before | source
        } else {
            before & source
        };
        if f.rs1 == 0 {
            Ok(read)
        } else {
            Ok(read.set_csr(addr, value))
        }
    } else {
        Err(ExecError::IllegalFunct)
    }
}

/// The state after the instruction `inst`, or why there is none. `s` has the
/// program counter behind the instruction.
pub open spec fn after_execute(s: Machine, inst: u32) -> Result<Machine, ExecError> {
    let opcode = fields_of(inst).opcode;
    if opcode == 0x03 {
        after_load(s, inst)
    } else if opcode == 0x23 {
        after_store(s, inst)
    } else if opcode == 0x13 {
        after_op_imm(s, inst)
    } else if opcode == 0x1b {
        after_op_imm_word(s, inst)
    } else if opcode == 0x33 {
        after_op(s, inst)
    } else if opcode == 0x3b {
        after_op_word(s, inst)
    } else if opcode == 0x63 {
        after_branch(s, inst)
    } else if opcode == 0x37 {
        after_lui(s, inst)
    } else if opcode == 0x17 {
        after_auipc(s, inst)
    } else if opcode == 0x6f {
        after_jal(s, inst)
    } else if opcode == 0x67 {
        after_jalr(s, inst)
    } else if opcode == 0x73 {
        after_csr(s, inst)
    } else {
        Err(ExecError::IllegalOpcode)
    }
}

/// The counters after an instruction has retired at `secs` seconds of wall
/// clock: `cycle` and `instret` one up, modulo 2^64, and `time` at `secs`.
pub open spec fn after_retire(s: Machine, secs: u64) -> Machine {
    Machine {
        csrs: s.csrs.update(RDCYCLE as int, wrap64(s.csrs[RDCYCLE as int] + 1)).update(
            INSTRET as int,
            wrap64(s.csrs[INSTRET as int] + 1),
        ).update(RDTIME as int, secs),
        ..s
    }
}

/// The instruction word at the program counter, if it can be read.
pub open spec fn fetch_result(s: Machine) -> Result<u32, AccessError> {
    match bus_load_result(s.mem, s.pc, 32) {
        Err(e) => Err(e),
        Ok(word) => Ok(word as u32),
    }
}

/// The state with the program counter moved behind the instruction that was
/// fetched.
pub open spec fn after_fetch(s: Machine) -> Machine {
    s.set_pc(wrap64(s.pc + 4))
}

/// One turn of the fetch-execute loop at `secs` seconds of wall clock: the
/// state after it, and why the run ends with it, if it does.
///
/// A fetch that fails leaves the state as it was. An instruction that cannot
/// be executed leaves only the program counter changed, which points behind
/// it. An instruction that retires has the counters updated.
pub open spec fn step_result(s: Machine, secs: u64) -> (Machine, Option<Halt>) {
    match fetch_result(s) {
        Err(_) => (s, Some(Halt::Fetch)),
        Ok(inst) => match after_execute(after_fetch(s), inst) {
            Err(e) => (after_fetch(s), Some(Halt::Exec(e))),
            Ok(executed) => {
                let retired = after_retire(executed, secs);
                (
                    retired,
                    if retired.pc == 0 {
                        Some(Halt::ZeroPc)
                    } else {
                        None
                    },
                )
            },
        },
    }
}

/// The step from `s` retires an instruction, and `executed` is the state
/// that the instruction leaves before the counters are updated.
pub open spec fn retires(s: Machine, executed: Machine) -> bool {
    match fetch_result(s) {
        Err(_) => false,
        Ok(inst) => after_execute(after_fetch(s), inst) == Ok::<Machine, ExecError>(executed),
    }
}

/// The state after one step for each clock reading of `ticks`, in order.
pub open spec fn after_steps(s: Machine, ticks: Seq<u64>) -> Machine
    decreases ticks.len(),
{
    if ticks.len() == 0 {
        s
    } else {
        step_result(after_steps(s, ticks.drop_last()), ticks.last()).0
    }
}

/// None of the steps that `ticks` times ends the run.
pub open spec fn runs_through(s: Machine, ticks: Seq<u64>) -> bool {
    forall|i: int|
        0 <= i < ticks.len() ==> (#[trigger] step_result(
            after_steps(s, ticks.take(i)),
            ticks[i],
        )).1 is None
}

/// A run of at most `limit` steps from `s`, its steps timed by `ticks`, ends
/// in the state `end` for the reason `halt`: either the last step ended it
/// and none before did, or all `limit` steps were taken and none ended it.
pub open spec fn run_ends(s: Machine, ticks: Seq<u64>, limit: u64, end: Machine, halt: Halt) -> bool {
    &&& end == after_steps(s, ticks)
    &&& ticks.len() <= limit
    &&& if halt == Halt::OutOfSteps {
        ticks.len() == limit && runs_through(s, ticks)
    } else {
        &&& ticks.len() > 0
        &&& runs_through(s, ticks.drop_last())
        &&& step_result(after_steps(s, ticks.drop_last()), ticks.last()).1 == Some(halt)
    }
}

} // verus!
