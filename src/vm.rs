use vstd::prelude::*;
use crate::isa::{Instruction, PROGRAM_CAPACITY};
use crate::io::{Io, IoModel, filled_bytes, io_initial, io_load, io_store, IO_BASE};

verus! {

/// Number of general registers.
pub const REGISTERS: usize = 16;
/// Number of data memory addresses (the top sixteen are the peripherals').
pub const DATA_SIZE: usize = 256;

/// The machine's state as plain values.
pub struct MachineModel {
    pub program: Seq<Instruction>,
    pub pc: nat,
    pub regs: Seq<u8>,
    pub zero: bool,
    pub carry: bool,
    pub mem: Seq<u8>,
    /// The single return-address slot that a call fills.
    pub ret: nat,
    pub halted: bool,
    pub io: IoModel,
}

impl MachineModel {
    pub open spec fn wf(self) -> bool {
        &&& self.program.len() <= PROGRAM_CAPACITY
        &&& forall|i: int| 0 <= i < self.program.len() ==> (#[trigger] self.program[i]).wf()
        &&& self.pc <= PROGRAM_CAPACITY
        &&& self.ret <= PROGRAM_CAPACITY
        &&& self.regs.len() == REGISTERS
        &&& self.regs[0] == 0
        &&& self.mem.len() == DATA_SIZE
        &&& self.io.wf()
    }

    /// The value register `r` reads.
    pub open spec fn reg(self, r: u8) -> u8 {
        self.regs[r as int]
    }
}

/// A machine loaded with `program`, before its first step.
pub open spec fn initial(program: Seq<Instruction>, seed: u32) -> MachineModel {
    MachineModel {
        program,
        pc: 0,
        regs: Seq::new(REGISTERS as nat, |i: int| 0u8),
        zero: false,
        carry: false,
        mem: Seq::new(DATA_SIZE as nat, |i: int| 0u8),
        ret: 0,
        halted: false,
        io: io_initial(seed),
    }
}

/// Writes `v` to register `r`; a write to register 0 is discarded.
pub open spec fn write_reg(s: MachineModel, r: u8, v: u8) -> MachineModel {
    if r == 0 {
        s
    } else {
        MachineModel { regs: s.regs.update(r as int, v), ..s }
    }
}

pub open spec fn advance(s: MachineModel) -> MachineModel {
    MachineModel { pc: s.pc + 1, ..s }
}

/// Writes an arithmetic result, sets the flags from it and moves on.
pub open spec fn alu(s: MachineModel, dst: u8, v: u8, carry: bool) -> MachineModel {
    advance(MachineModel { zero: v == 0, carry, ..write_reg(s, dst, v) })
}

/// Whether branch condition `cond` holds: zero set, zero clear, carry set,
/// carry clear.
pub open spec fn cond_holds(s: MachineModel, cond: u8) -> bool {
    if cond == 0 {
        s.zero
    } else if cond == 1 {
        !s.zero
    } else if cond == 2 {
        s.carry
    } else {
        !s.carry
    }
}

/// The data address that a load or store with base register `a` reaches.
pub open spec fn data_addr(s: MachineModel, a: u8, offset: u8) -> u8 {
    ((s.reg(a) + offset) % 256) as u8
}

/// The state after executing `ins` at the current program counter.
pub open spec fn execute(s: MachineModel, ins: Instruction) -> MachineModel {
    match ins {
        Instruction::NOP => advance(s),
        Instruction::HLT => MachineModel { halted: true, ..s },
        Instruction::ADD { a, b, c } => alu(
            s,
            c,
            ((s.reg(a) + s.reg(b)) % 256) as u8,
            s.reg(a) + s.reg(b) > 255,
        ),
        Instruction::SUB { a, b, c } => alu(
            s,
            c,
            ((s.reg(a) - s.reg(b)) % 256) as u8,
            s.reg(a) < s.reg(b),
        ),
        Instruction::NOR { a, b, c } => alu(s, c, !(s.reg(a) | s.reg(b)), false),
        Instruction::AND { a, b, c } => alu(s, c, s.reg(a) & s.reg(b), false),
        Instruction::XOR { a, b, c } => alu(s, c, s.reg(a) ^ s.reg(b), false),
        Instruction::RSH { a, c } => alu(s, c, s.reg(a) / 2, false),
        Instruction::LDI { a, imm } => advance(write_reg(s, a, imm)),
        Instruction::ADI { a, imm } => alu(
            s,
            a,
            ((s.reg(a) + imm) % 256) as u8,
            s.reg(a) + imm > 255,
        ),
        Instruction::JMP { addr } => MachineModel { pc: addr as nat, ..s },
        Instruction::BRH { cond, addr } => if cond_holds(s, cond) {
            MachineModel { pc: addr as nat, ..s }
        } else {
            advance(s)
        },
        Instruction::CAL { addr } => MachineModel { pc: addr as nat, ret: s.pc + 1, ..s },
        Instruction::RET => MachineModel { pc: s.ret, ..s },
        Instruction::LOD { a, b, offset } => {
            let at = data_addr(s, a, offset);
            if at >= IO_BASE {
                let (v, io) = io_load(s.io, at);
                advance(write_reg(MachineModel { io, ..s }, b, v))
            } else {
                advance(write_reg(s, b, s.mem[at as int]))
            }
        },
        Instruction::STR { a, b, offset } => {
            let at = data_addr(s, a, offset);
            if at >= IO_BASE {
                advance(MachineModel { io: io_store(s.io, at, s.reg(b)), ..s })
            } else {
                advance(MachineModel { mem: s.mem.update(at as int, s.reg(b)), ..s })
            }
        },
    }
}

/// One step: nothing once halted; past the end of the program, an implicit halt.
pub open spec fn next(s: MachineModel) -> MachineModel {
    if s.halted {
        s
    } else if s.pc >= s.program.len() {
        MachineModel { halted: true, ..s }
    } else {
        execute(s, s.program[s.pc as int])
    }
}

/// Up to `n` steps, stopping at a halt: the state reached and the number of
/// steps taken.
pub open spec fn run(s: MachineModel, n: nat) -> (MachineModel, nat)
    decreases n,
{
    if n == 0 || s.halted {
        (s, 0)
    } else {
        let (t, k) = run(next(s), (n - 1) as nat);
        (t, k + 1)
    }
}

/// Why a program cannot be loaded.
#[derive(Debug, Copy, Clone, PartialEq, Eq, Structural)]
pub enum LoadError {
    /// The program has more words than program memory holds.
    TooLong { len: usize },
}

/// The machine: program memory, registers, flags, data memory, peripherals.
pub struct BatPU2 {
    program: Vec<Instruction>,
    pc: usize,
    regs: Vec<u8>,
    zero: bool,
    carry: bool,
    mem: Vec<u8>,
    ret: usize,
    halted: bool,
    pub io: Io,
}

impl View for BatPU2 {
    type V = MachineModel;

    closed spec fn view(&self) -> MachineModel {
        MachineModel {
            program: self.program@,
            pc: self.pc as nat,
            regs: self.regs@,
            zero: self.zero,
            carry: self.carry,
            mem: self.mem@,
            ret: self.ret as nat,
            halted: self.halted,
            io: self.io@,
        }
    }
}

impl BatPU2 {
    /// Loads a program; rejected when it exceeds program memory.
    pub fn new(program: Vec<Instruction>) -> (r: Result<BatPU2, LoadError>)
        requires
            forall|i: int| 0 <= i < program@.len() ==> (#[trigger] program@[i]).wf(),
        ensures
            program@.len() <= PROGRAM_CAPACITY <==> r is Ok,
            r is Ok ==> r->Ok_0@ == initial(program@, 0) && r->Ok_0@.wf(),
            r is Err ==> r == Err::<BatPU2, LoadError>(LoadError::TooLong { len: program@.len() as usize }),
    {
        if program.len() > PROGRAM_CAPACITY {
            return Err(LoadError::TooLong { len: program.len() });
        }
        let vm = BatPU2 {
            program,
            pc: 0,
            regs: filled_bytes(REGISTERS),
            zero: false,
            carry: false,
            mem: filled_bytes(DATA_SIZE),
            ret: 0,
            halted: false,
            io: Io::new(0),
        };
        Ok(vm)
    }

    pub fn is_halted(&self) -> (r: bool)
        ensures
            r == self@.halted,
    {
        self.halted
    }

    pub fn pc(&self) -> (r: usize)
        ensures
            r == self@.pc,
    {
        self.pc
    }

    /// The value of register `r`.
    pub fn register(&self, r: u8) -> (v: u8)
        requires
            self@.wf(),
            r < 16,
        ensures
            v == self@.reg(r),
    {
        self.regs[r as usize]
    }

    pub fn zero_flag(&self) -> (r: bool)
        ensures
            r == self@.zero,
    {
        self.zero
    }

    pub fn carry_flag(&self) -> (r: bool)
        ensures
            r == self@.carry,
    {
        self.carry
    }

    /// The byte at plain data address `at`.
    pub fn memory(&self, at: u8) -> (v: u8)
        requires
            self@.wf(),
        ensures
            v == self@.mem[at as int],
    {
        self.mem[at as usize]
    }

    fn write_reg(&mut self, r: u8, v: u8)
        requires
            old(self)@.wf(),
            r < 16,
        ensures
            final(self)@ == write_reg(old(self)@, r, v),
    {
        if r != 0 {
            self.regs.set(r as usize, v);
        }
    }

    fn alu(&mut self, dst: u8, v: u8, carry: bool)
        requires
            old(self)@.wf(),
            dst < 16,
            old(self).pc < old(self)@.program.len(),
        ensures
            final(self)@ == alu(old(self)@, dst, v, carry),
    {
        self.write_reg(dst, v);
        self.zero = v == 0;
        self.carry = carry;
        self.pc = self.pc + 1;
    }

    /// Executes one instruction; reports whether the machine was running.
    pub fn step(&mut self) -> (r: bool)
        requires
            old(self)@.wf(),
        ensures
            final(self)@ == next(old(self)@),
            final(self)@.wf(),
            r == !old(self)@.halted,
    {
        proof {
            lemma_next_wf(self@);
        }
        if self.halted {
            return false;
        }
        if self.pc >= self.program.len() {
            self.halted = true;
            return true;
        }
        let ins = self.program[self.pc];
        assert(ins.wf());
        match ins {
            Instruction::NOP => {
                self.pc = self.pc + 1;
            },
            Instruction::HLT => {
                self.halted = true;
            },
            Instruction::ADD { a, b, c } => {
                let x = self.regs[a as usize] as u16;
                let y = self.regs[b as usize] as u16;
                self.alu(c, ((x + y) % 256) as u8, x + y > 255);
            },
            Instruction::SUB { a, b, c } => {
                let x = self.regs[a as usize];
                let y = self.regs[b as usize];
                let v: u8 = if x >= y {
                    x - y
                } else {
                    (256 + x as u16 - y as u16) as u8
                };
                self.alu(c, v, x < y);
            },
            Instruction::NOR { a, b, c } => {
                let v = !(self.regs[a as usize] | self.regs[b as usize]);
                self.alu(c, v, false);
            },
            Instruction::AND { a, b, c } => {
                let v = self.regs[a as usize] & self.regs[b as usize];
                self.alu(c, v, false);
            },
            Instruction::XOR { a, b, c } => {
                let v = self.regs[a as usize] ^ self.regs[b as usize];
                self.alu(c, v, false);
            },
            Instruction::RSH { a, c } => {
                let v = self.regs[a as usize] / 2;
                self.alu(c, v, false);
            },
            Instruction::LDI { a, imm } => {
                self.write_reg(a, imm);
                self.pc = self.pc + 1;
            },
            Instruction::ADI { a, imm } => {
                let x = self.regs[a as usize] as u16;
                let y = imm as u16;
                self.alu(a, ((x + y) % 256) as u8, x + y > 255);
            },
            Instruction::JMP { addr } => {
                self.pc = addr as usize;
            },
            Instruction::BRH { cond, addr } => {
                let taken = if cond == 0 {
                    self.zero
                } else if cond == 1 {
                    !self.zero
                } else if cond == 2 {
                    self.carry
                } else {
                    !self.carry
                };
                if taken {
                    self.pc = addr as usize;
                } else {
                    self.pc = self.pc + 1;
                }
            },
            Instruction::CAL { addr } => {
                self.ret = self.pc + 1;
                self.pc = addr as usize;
            },
            Instruction::RET => {
                self.pc = self.ret;
            },
            Instruction::LOD { a, b, offset } => {
                let at = ((self.regs[a as usize] as u16 + offset as u16) % 256) as u8;
                let v = if at >= IO_BASE {
                    self.io.load(at)
                } else {
                    self.mem[at as usize]
                };
                self.write_reg(b, v);
                self.pc = self.pc + 1;
            },
            Instruction::STR { a, b, offset } => {
                let at = ((self.regs[a as usize] as u16 + offset as u16) % 256) as u8;
                let v = self.regs[b as usize];
                if at >= IO_BASE {
                    self.io.store(at, v);
                } else {
                    self.mem.set(at as usize, v);
                }
                self.pc = self.pc + 1;
            },
        }
        true
    }

    /// Executes up to `n` steps, stopping once halted; returns the number taken.
    pub fn step_multiple(&mut self, n: usize) -> (r: usize)
        requires
            old(self)@.wf(),
        ensures
            (final(self)@, r as nat) == run(old(self)@, n as nat),
            final(self)@.wf(),
    {
        let mut done: usize = 0;
        while done < n && !self.halted
            invariant
                done <= n,
                self@.wf(),
                run(old(self)@, n as nat).0 == run(self@, (n - done) as nat).0,
                run(old(self)@, n as nat).1 == run(self@, (n - done) as nat).1 + done,
            decreases n - done,
        {
            self.step();
            done = done + 1;
        }
        done
    }
}

/// Stepping keeps the machine well formed.
pub proof fn lemma_next_wf(s: MachineModel)
    requires
        s.wf(),
    ensures
        next(s).wf(),
{
    if !s.halted && s.pc < s.program.len() {
        let ins = s.program[s.pc as int];
        assert(ins.wf());
        match ins {
            Instruction::LOD { a, b, offset } => {
                let at = data_addr(s, a, offset);
                if at >= IO_BASE {
                    lemma_io_load_wf(s.io, at);
                }
            },
            Instruction::STR { a, b, offset } => {
                let at = data_addr(s, a, offset);
                if at >= IO_BASE {
                    lemma_io_store_wf(s.io, at, s.reg(b));
                }
            },
            _ => {},
        }
    }
}

proof fn lemma_io_load_wf(io: IoModel, at: u8)
    requires
        io.wf(),
    ensures
        io_load(io, at).1.wf(),
{
}

proof fn lemma_io_store_wf(io: IoModel, at: u8, v: u8)
    requires
        io.wf(),
    ensures
        io_store(io, at, v).wf(),
{
    assert(io.pixel() < 1024) by (nonlinear_arith)
        requires io.x < 32, io.y < 32, io.pixel() == io.y * 32 + io.x;
}

/// Register 0 reads zero in every reachable state: writes to it are discarded
/// and any step keeps it at zero.
pub proof fn lemma_register_zero(s: MachineModel, v: u8, n: nat)
    requires
        s.wf(),
    ensures
        s.reg(0) == 0,
        write_reg(s, 0, v) == s,
        next(s).reg(0) == 0,
        run(s, n).0.reg(0) == 0,
        run(s, n).0.wf(),
    decreases n,
{
    lemma_next_wf(s);
    if n > 0 && !s.halted {
        lemma_register_zero(next(s), v, (n - 1) as nat);
    }
}

/// A halted machine stays as it is, and a step on it reports no progress.
pub proof fn lemma_halted_stays(s: MachineModel, n: nat)
    requires
        s.halted,
    ensures
        next(s) == s,
        run(s, n) == (s, 0nat),
{
}

} // verus!
