//! The processor: the architectural state and the fetch-execute loop.

use std::time::Instant;
use vstd::prelude::*;

use crate::alu::{branch, load_kind, op, op_imm, op_imm_word, op_word, store_kind, widen_loaded};
use crate::bus::{Bus, DRAM_BASE};
use crate::csr::{csr_read, CSR_COUNT, INSTRET, MIDELEG, MIE, RDCYCLE, RDTIME, SIE};
use crate::decode::{csr_address, decode, imm_b, imm_i, imm_j, imm_s, imm_u};
use crate::dram::{Dram, DRAM_SIZE};
use crate::machine::{
    after_branch, after_csr, after_execute, after_jal, after_jalr, after_load, after_lui,
    after_auipc, after_op, after_op_imm, after_op_imm_word, after_op_word, after_retire,
    after_steps, after_store, follows, relative_target, reset, run_ends, runs_through,
    step_result, ExecError, Halt, Machine,
};
use crate::word::{add64, sub64};

verus! {

/// A processor with its memory. Register 0 holds 0 at all times.
#[derive(Debug)]
pub struct Cpu {
    regs: [u64; 32],
    pc: u64,
    bus: Bus,
    /// Control and status registers, one slot for each 12-bit address.
    csrs: [u64; 4096],
    /// The moment the processor was made, from which `time` is counted.
    start: Instant,
}

impl View for Cpu {
    type V = Machine;

    /// The architectural state; the clock is no part of it.
    closed spec fn view(&self) -> Machine {
        Machine { regs: self.regs@, pc: self.pc, csrs: self.csrs@, mem: self.bus@ }
    }
}

impl Clone for Cpu {
    fn clone(&self) -> (copy: Self)
        ensures
            copy@ == self@,
    {
        proof {
            use_type_invariant(self);
        }
        Cpu {
            regs: self.regs,
            pc: self.pc,
            bus: self.bus.clone(),
            csrs: self.csrs,
            start: self.start,
        }
    }
}

impl Cpu {
    #[verifier::type_invariant]
    spec fn inv(&self) -> bool {
        self.regs[0] == 0 && self.bus@.len() == DRAM_SIZE
    }

    /// A processor after reset, with `code` at the start of DRAM.
    pub fn new(code: Vec<u8>) -> (cpu: Cpu)
        requires
            code.len() <= DRAM_SIZE,
        ensures
            cpu@ == reset(code@),
            cpu@.wf(),
    {
        let mut regs = [0u64;32];
        regs[2] = DRAM_BASE + DRAM_SIZE;
        let cpu = Cpu {
            regs,
            pc: DRAM_BASE,
            bus: Bus { dram: Dram::new(code) },
            csrs: [0u64;4096],
            start: Instant::now(),
        };
        assert(cpu@.regs =~= reset(code@).regs);
        assert(cpu@.csrs =~= reset(code@).csrs);
        cpu
    }

    /// The general-purpose registers.
    pub fn regs(&self) -> (regs: &[u64; 32])
        ensures
            regs@ == self@.regs,
            self@.wf(),
    {
        proof {
            use_type_invariant(self);
        }
        &self.regs
    }

    /// The program counter.
    pub fn pc(&self) -> (pc: u64)
        ensures
            pc == self@.pc,
    {
        self.pc
    }

    /// The CSR slots as stored, without the supervisor view laid over them.
    pub fn csrs(&self) -> (csrs: &[u64; 4096])
        ensures
            csrs@ == self@.csrs,
    {
        &self.csrs
    }

    /// The bus, and behind it DRAM.
    pub fn bus(&self) -> (bus: &Bus)
        ensures
            bus@ == self@.mem,
    {
        &self.bus
    }

    fn set_reg(&mut self, rd: usize, value: u64)
        requires
            rd < 32,
        ensures
            final(self)@ == old(self)@.set_reg(rd as int, value),
    {
        if rd != 0 {
            proof {
                use_type_invariant(&*self);
            }
            self.regs[rd] = value;
        }
    }

    fn load_csr(&self, addr: usize) -> (value: u64)
        requires
            addr < CSR_COUNT,
        ensures
            value == csr_read(self@.csrs, addr as int),
    {
        match addr {
            SIE => self.csrs[MIE] & self.csrs[MIDELEG],
            _ => self.csrs[addr],
        }
    }

    fn store_csr(&mut self, addr: usize, value: u64)
        requires
            addr < CSR_COUNT,
        ensures
            final(self)@ == old(self)@.set_csr(addr as int, value),
    {
        proof {
            use_type_invariant(&*self);
        }
        match addr {
            SIE => {
                self.csrs[MIE] = (self.csrs[MIE] & !self.csrs[MIDELEG]) | (value
                    & self.csrs[MIDELEG]);
            },
            _ => {
                self.csrs[addr] = value;
            },
        }
    }

    fn execute_load(&mut self, inst: u32) -> (r: Result<(), ExecError>)
        ensures
            follows(old(self)@, final(self)@, r, after_load(old(self)@, inst)),
    {
        let f = decode(inst);
        let addr = add64(self.regs[f.rs1], imm_i(inst));
        match load_kind(f.funct3) {
            None => Err(ExecError::IllegalFunct),
            Some((width, signed)) => match self.bus.load(addr, width) {
                Err(e) => Err(ExecError::Bus(e)),
                Ok(raw) => {
                    self.set_reg(f.rd, widen_loaded(raw, width, signed));
                    Ok(())
                },
            },
        }
    }

    fn execute_store(&mut self, inst: u32) -> (r: Result<(), ExecError>)
        ensures
            follows(old(self)@, final(self)@, r, after_store(old(self)@, inst)),
    {
        proof {
            use_type_invariant(&*self);
        }
        let f = decode(inst);
        let addr = add64(self.regs[f.rs1], imm_s(inst));
        match store_kind(f.funct3) {
            None => Err(ExecError::IllegalFunct),
            Some(width) => match self.bus.store(addr, width, self.regs[f.rs2]) {
                Err(e) => Err(ExecError::Bus(e)),
                Ok(()) => Ok(()),
            },
        }
    }

    fn finish(&mut self, rd: usize, result: Option<u64>) -> (r: Result<(), ExecError>)
        requires
            rd < 32,
        ensures
            follows(
                old(self)@,
                final(self)@,
                r,
                crate::machine::with_result(old(self)@, rd as int, result),
            ),
    {
        match result {
            None => Err(ExecError::IllegalFunct),
            Some(value) => {
                self.set_reg(rd, value);
                Ok(())
            },
        }
    }

    fn execute_op_imm(&mut self, inst: u32) -> (r: Result<(), ExecError>)
        ensures
            follows(old(self)@, final(self)@, r, after_op_imm(old(self)@, inst)),
    {
        let f = decode(inst);
        let result = op_imm(f.funct3, f.funct7, self.regs[f.rs1], imm_i(inst));
        self.finish(f.rd, result)
    }

    fn execute_op_imm_word(&mut self, inst: u32) -> (r: Result<(), ExecError>)
        ensures
            follows(old(self)@, final(self)@, r, after_op_imm_word(old(self)@, inst)),
    {
        let f = decode(inst);
        let result = op_imm_word(f.funct3, f.funct7, self.regs[f.rs1], imm_i(inst));
        self.finish(f.rd, result)
    }

    fn execute_op(&mut self, inst: u32) -> (r: Result<(), ExecError>)
        ensures
            follows(old(self)@, final(self)@, r, after_op(old(self)@, inst)),
    {
        let f = decode(inst);
        let result = op(f.funct3, f.funct7, self.regs[f.rs1], self.regs[f.rs2]);
        self.finish(f.rd, result)
    }

    fn execute_op_word(&mut self, inst: u32) -> (r: Result<(), ExecError>)
        ensures
            follows(old(self)@, final(self)@, r, after_op_word(old(self)@, inst)),
    {
        let f = decode(inst);
        let result = op_word(f.funct3, f.funct7, self.regs[f.rs1], self.regs[f.rs2]);
        self.finish(f.rd, result)
    }

    fn jump_relative(&mut self, imm: u64)
        ensures
            final(self)@ == old(self)@.set_pc(relative_target(old(self)@.pc, imm)),
    {
        proof {
            use_type_invariant(&*self);
        }
        self.pc = sub64(add64(self.pc, imm), 4);
    }

    fn execute_branch(&mut self, inst: u32) -> (r: Result<(), ExecError>)
        ensures
            follows(old(self)@, final(self)@, r, after_branch(old(self)@, inst)),
    {
        let f = decode(inst);
        match branch(f.funct3, self.regs[f.rs1], self.regs[f.rs2]) {
            None => Err(ExecError::IllegalFunct),
            Some(taken) => {
                if taken {
                    self.jump_relative(imm_b(inst));
                }
                Ok(())
            },
        }
    }

    fn execute_lui(&mut self, inst: u32) -> (r: Result<(), ExecError>)
        ensures
            follows(old(self)@, final(self)@, r, after_lui(old(self)@, inst)),
    {
        let f = decode(inst);
        self.set_reg(f.rd, imm_u(inst));
        Ok(())
    }

    fn execute_auipc(&mut self, inst: u32) -> (r: Result<(), ExecError>)
        ensures
            follows(old(self)@, final(self)@, r, after_auipc(old(self)@, inst)),
    {
        let f = decode(inst);
        let own = sub64(self.pc, 4);
        self.set_reg(f.rd, add64(own, imm_u(inst)));
        Ok(())
    }

    fn execute_jal(&mut self, inst: u32) -> (r: Result<(), ExecError>)
        ensures
            follows(old(self)@, final(self)@, r, after_jal(old(self)@, inst)),
    {
        let f = decode(inst);
        let link = self.pc;
        self.set_reg(f.rd, link);
        self.jump_relative(imm_j(inst));
        Ok(())
    }

    fn execute_jalr(&mut self, inst: u32) -> (r: Result<(), ExecError>)
        ensures
            follows(old(self)@, final(self)@, r, after_jalr(old(self)@, inst)),
    {
        let f = decode(inst);
        let link = self.pc;
        self.set_reg(f.rd, link);
        proof {
            use_type_invariant(&*self);
        }
        self.pc = add64(self.regs[f.rs1], imm_i(inst)) & !1u64;
        Ok(())
    }

    fn execute_csr(&mut self, inst: u32) -> (r: Result<(), ExecError>)
        ensures
            follows(old(self)@, final(self)@, r, after_csr(old(self)@, inst)),
    {
        let f = decode(inst);
        let addr = csr_address(inst);
        let imm = f.rs1 as u64;
        match f.funct3 {
            0x1 => {
                // The old value is read only where it has somewhere to go.
                if f.rd != 0 {
                    let before = self.load_csr(addr);
                    self.store_csr(addr, self.regs[f.rs1]);
                    self.set_reg(f.rd, before);
                } else {
                    self.store_csr(addr, self.regs[f.rs1]);
                }
                Ok(())
            },
            0x2 => {
                let before = self.load_csr(addr);
                self.set_reg(f.rd, before);
                if f.rs1 != 0 {
                    self.store_csr(addr, before | self.regs[f.rs1]);
                }
                Ok(())
            },
            0x3 => {
                let before = self.load_csr(addr);
                self.set_reg(f.rd, before);
                if f.rs1 != 0 {
                    self.store_csr(addr, before & self.regs[f.rs1]);
                }
                Ok(())
            },
            0x5 => {
                if f.rd != 0 {
                    let before = self.load_csr(addr);
                    self.store_csr(addr, imm);
                    self.set_reg(f.rd, before);
                } else {
                    self.store_csr(addr, imm);
                }
                Ok(())
            },
            0x6 => {
                let before = self.load_csr(addr);
                self.set_reg(f.rd, before);
                if imm != 0 {
                    self.store_csr(addr, before | imm);
                }
                Ok(())
            },
            0x7 => {
                let before = self.load_csr(addr);
                self.set_reg(f.rd, before);
                if imm != 0 {
                    self.store_csr(addr, before & imm);
                }
                Ok(())
            },
            _ => Err(ExecError::IllegalFunct),
        }
    }

    /// Executes `inst`, the program counter pointing behind it already.
    fn execute(&mut self, inst: u32) -> (r: Result<(), ExecError>)
        ensures
            follows(old(self)@, final(self)@, r, after_execute(old(self)@, inst)),
    {
        let f = decode(inst);
        match f.opcode {
            0x03 => self.execute_load(inst),
            0x23 => self.execute_store(inst),
            0x13 => self.execute_op_imm(inst),
            0x1b => self.execute_op_imm_word(inst),
            0x33 => self.execute_op(inst),
            0x3b => self.execute_op_word(inst),
            0x63 => self.execute_branch(inst),
            0x37 => self.execute_lui(inst),
            0x17 => self.execute_auipc(inst),
            0x6f => self.execute_jal(inst),
            0x67 => self.execute_jalr(inst),
            0x73 => self.execute_csr(inst),
            _ => Err(ExecError::IllegalOpcode),
        }
    }

    /// Reads the instruction word at the program counter.
    fn fetch(&self) -> (r: Result<u64, crate::dram::AccessError>)
        ensures
            r == crate::bus::bus_load_result(self@.mem, self@.pc, 32),
    {
        self.bus.load(self.pc, 32)
    }

    /// Updates the counters after an instruction has retired.
    fn retire(&mut self, secs: u64)
        ensures
            final(self)@ == after_retire(old(self)@, secs),
    {
        proof {
            use_type_invariant(&*self);
        }
        self.csrs[RDCYCLE] = add64(self.csrs[RDCYCLE], 1);
        self.csrs[INSTRET] = add64(self.csrs[INSTRET], 1);
        self.csrs[RDTIME] = secs;
    }

    /// One turn of the fetch-execute loop, for a wall clock that stands at
    /// `secs` seconds: `None` where the run goes on, else why it ends.
    pub fn step_at(&mut self, secs: u64) -> (halt: Option<Halt>)
        ensures
            (final(self)@, halt) == step_result(old(self)@, secs),
            old(self)@.wf(),
            final(self)@.wf(),
    {
        proof {
            use_type_invariant(&*self);
        }
        let inst = match self.fetch() {
            Err(_) => {
                return Some(Halt::Fetch);
            },
            Ok(word) => word,
        };
        self.pc = add64(self.pc, 4);
        match self.execute(inst as u32) {
            Err(e) => {
                proof {
                    use_type_invariant(&*self);
                }
                return Some(Halt::Exec(e));
            },
            Ok(()) => {},
        }
        self.retire(secs);
        proof {
            use_type_invariant(&*self);
        }
        if self.pc == 0 {
            Some(Halt::ZeroPc)
        } else {
            None
        }
    }

    /// One turn of the fetch-execute loop, timed by the wall clock.
    pub fn step(&mut self) -> (halt: Option<Halt>)
        ensures
            exists|secs: u64| (final(self)@, halt) == step_result(old(self)@, secs),
            old(self)@.wf(),
            final(self)@.wf(),
    {
        let secs = self.start.elapsed().as_secs();
        self.step_at(secs)
    }

    /// Runs until a step ends the run, for `limit` steps at most.
    pub fn run_for(&mut self, limit: u64) -> (halt: Halt)
        ensures
            exists|ticks: Seq<u64>| run_ends(old(self)@, ticks, limit, final(self)@, halt),
            old(self)@.wf(),
            final(self)@.wf(),
    {
        proof {
            use_type_invariant(&*self);
        }
        let ghost first = self@;
        let ghost mut ticks: Seq<u64> = Seq::empty();
        let mut taken: u64 = 0;
        while taken < limit
            invariant
                taken == ticks.len(),
                taken <= limit,
                first == old(self)@,
                first.wf(),
                self@ == after_steps(first, ticks),
                runs_through(first, ticks),
                self@.wf(),
            decreases limit - taken,
        {
            let secs = self.start.elapsed().as_secs();
            let halt = self.step_at(secs);
            proof {
                let longer = ticks.push(secs);
                assert(longer.drop_last() =~= ticks);
                assert forall|i: int| 0 <= i < ticks.len() implies longer.take(i) == ticks.take(
                    i,
                ) && longer[i] == ticks[i] by {
                    assert(longer.take(i) =~= ticks.take(i));
                }
                assert(longer.take(ticks.len() as int) =~= ticks);
                ticks = longer;
            }
            match halt {
                Some(h) => {
                    assert(run_ends(first, ticks, limit, self@, h));
                    return h;
                },
                None => {},
            }
            taken += 1;
        }
        assert(run_ends(first, ticks, limit, self@, Halt::OutOfSteps));
        Halt::OutOfSteps
    }

    /// Runs until a fetch fails, an instruction cannot be executed or the
    /// program counter is left at zero. A program that never ends is stopped
    /// after 2^64 - 1 steps.
    pub fn run(&mut self) -> (halt: Halt)
        ensures
            exists|ticks: Seq<u64>| run_ends(old(self)@, ticks, u64::MAX, final(self)@, halt),
            old(self)@.wf(),
            final(self)@.wf(),
    {
        self.run_for(u64::MAX)
    }

    /// What a dump of the registers shows: for each register in order, its
    /// ABI name and what it holds.
    pub fn dump_registers(&self) -> (rows: Vec<(&'static str, u64)>)
        ensures
            rows.len() == 32,
            forall|i: int|
                0 <= i < 32 ==> (#[trigger] rows[i]).0@ == abi_name_of(i) && rows[i].1
                    == self@.regs[i],
    {
        let mut rows: Vec<(&'static str, u64)> = Vec::new();
        let mut i: usize = 0;
        while i < 32
            invariant
                i <= 32,
                rows.len() == i,
                forall|j: int|
                    0 <= j < i ==> (#[trigger] rows[j]).0@ == abi_name_of(j) && rows[j].1
                        == self@.regs[j],
            decreases 32 - i,
        {
            rows.push((abi_name(i), self.regs[i]));
            i += 1;
        }
        rows
    }

    /// What a dump of the CSR file shows: the slots that do not hold zero,
    /// each with its address, in rising order of address.
    pub fn dump_csr(&self) -> (rows: Vec<(usize, u64)>)
        ensures
            forall|k: int|
                0 <= k < rows.len() ==> (#[trigger] rows[k]).0 < CSR_COUNT && rows[k].1 != 0
                    && rows[k].1 == self@.csrs[rows[k].0 as int],
            forall|j: int, k: int| 0 <= j < k < rows.len() ==> rows[j].0 < rows[k].0,
            forall|addr: int|
                0 <= addr < CSR_COUNT && self@.csrs[addr] != 0 ==> exists|k: int|
                    0 <= k < rows.len() && (#[trigger] rows[k]).0 == addr,
    {
        let mut rows: Vec<(usize, u64)> = Vec::new();
        let mut addr: usize = 0;
        while addr < CSR_COUNT
            invariant
                addr <= CSR_COUNT,
                forall|k: int|
                    0 <= k < rows.len() ==> (#[trigger] rows[k]).0 < addr && rows[k].1 != 0
                        && rows[k].1 == self@.csrs[rows[k].0 as int],
                forall|j: int, k: int| 0 <= j < k < rows.len() ==> rows[j].0 < rows[k].0,
                forall|a: int|
                    0 <= a < addr && self@.csrs[a] != 0 ==> exists|k: int|
                        0 <= k < rows.len() && (#[trigger] rows[k]).0 == a,
            decreases CSR_COUNT - addr,
        {
            let value = self.csrs[addr];
            if value != 0 {
                let ghost before = rows@;
                rows.push((addr, value));
                assert(rows[before.len() as int].0 == addr);
                assert forall|a: int| 0 <= a < addr + 1 && self@.csrs[a] != 0 implies exists|
                    k: int,
                |
                    0 <= k < rows.len() && (#[trigger] rows[k]).0 == a by {
                    if a < addr {
                        let k = choose|k: int| 0 <= k < before.len() && (#[trigger] before[k]).0 == a;
                        assert(rows[k].0 == a);
                    }
                }
            }
            addr += 1;
        }
        rows
    }
}

/// The ABI name of register `reg`, set in four columns.
pub open spec fn abi_name_of(reg: int) -> Seq<char> {
    if reg == 0 {
        "zero"@
    } else if reg == 1 {
        " ra "@
    } else if reg == 2 {
        " sp "@
    } else if reg == 3 {
        " gp "@
    } else if reg == 4 {
        " tp "@
    } else if reg == 5 {
        " t0 "@
    } else if reg == 6 {
        " t1 "@
    } else if reg == 7 {
        " t2 "@
    } else if reg == 8 {
        " s0 "@
    } else if reg == 9 {
        " s1 "@
    } else if reg == 10 {
        " a0 "@
    } else if reg == 11 {
        " a1 "@
    } else if reg == 12 {
        " a2 "@
    } else if reg == 13 {
        " a3 "@
    } else if reg == 14 {
        " a4 "@
    } else if reg == 15 {
        " a5 "@
    } else if reg == 16 {
        " a6 "@
    } else if reg == 17 {
        " a7 "@
    } else if reg == 18 {
        " s2 "@
    } else if reg == 19 {
        " s3 "@
    } else if reg == 20 {
        " s4 "@
    } else if reg == 21 {
        " s5 "@
    } else if reg == 22 {
        " s6 "@
    } else if reg == 23 {
        " s7 "@
    } else if reg == 24 {
        " s8 "@
    } else if reg == 25 {
        " s9 "@
    } else if reg == 26 {
        " s10"@
    } else if reg == 27 {
        " s11"@
    } else if reg == 28 {
        " t3 "@
    } else if reg == 29 {
        " t4 "@
    } else if reg == 30 {
        " t5 "@
    } else {
        " t6 "@
    }
}

/// The ABI name of register `reg`.
pub fn abi_name(reg: usize) -> (name: &'static str)
    ensures
        name@ == abi_name_of(reg as int),
{
    match reg {
        0 => "zero",
        1 => " ra ",
        2 => " sp ",
        3 => " gp ",
        4 => " tp ",
        5 => " t0 ",
        6 => " t1 ",
        7 => " t2 ",
        8 => " s0 ",
        9 => " s1 ",
        10 => " a0 ",
        11 => " a1 ",
        12 => " a2 ",
        13 => " a3 ",
        14 => " a4 ",
        15 => " a5 ",
        16 => " a6 ",
        17 => " a7 ",
        18 => " s2 ",
        19 => " s3 ",
        20 => " s4 ",
        21 => " s5 ",
        22 => " s6 ",
        23 => " s7 ",
        24 => " s8 ",
        25 => " s9 ",
        26 => " s10",
        27 => " s11",
        28 => " t3 ",
        29 => " t4 ",
        30 => " t5 ",
        _ => " t6 ",
    }
}

} // verus!
