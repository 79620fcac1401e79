use vstd::prelude::*;

verus! {

/// Number of words of program memory the address field can reach.
pub const PROGRAM_CAPACITY: usize = 1024;

/// One machine instruction. Each variant owns one 4-bit opcode, 0x0 to 0xF in
/// declaration order. Register, offset fields are 4 bits wide, `imm` 8 bits,
/// `addr` 10 bits and `cond` 2 bits (see `Instruction::wf`).
#[derive(Debug, Copy, Clone, PartialEq, Eq, Structural)]
pub enum Instruction {
    NOP,
    HLT,
    ADD { a: u8, b: u8, c: u8 },
    SUB { a: u8, b: u8, c: u8 },
    NOR { a: u8, b: u8, c: u8 },
    AND { a: u8, b: u8, c: u8 },
    XOR { a: u8, b: u8, c: u8 },
    RSH { a: u8, c: u8 },
    LDI { a: u8, imm: u8 },
    ADI { a: u8, imm: u8 },
    JMP { addr: u16 },
    BRH { cond: u8, addr: u16 },
    CAL { addr: u16 },
    RET,
    LOD { a: u8, b: u8, offset: u8 },
    STR { a: u8, b: u8, offset: u8 },
}

pub open spec fn nib(x: u8) -> bool {
    x < 16
}

/// Ten-bit program address.
pub open spec fn addr_ok(x: u16) -> bool {
    x < 1024
}

impl Instruction {
    /// Every operand fits its bit field.
    pub open spec fn wf(self) -> bool {
        match self {
            Instruction::ADD { a, b, c } | Instruction::SUB { a, b, c } | Instruction::NOR {
                a,
                b,
                c,
            } | Instruction::AND { a, b, c } | Instruction::XOR { a, b, c } => nib(a) && nib(b)
                && nib(c),
            Instruction::RSH { a, c } => nib(a) && nib(c),
            Instruction::LDI { a, imm } | Instruction::ADI { a, imm } => nib(a),
            Instruction::JMP { addr } | Instruction::CAL { addr } => addr_ok(addr),
            Instruction::BRH { cond, addr } => cond < 4 && addr_ok(addr),
            Instruction::LOD { a, b, offset } | Instruction::STR { a, b, offset } => nib(a) && nib(
                b,
            ) && nib(offset),
            _ => true,
        }
    }

    /// The opcode nibble of the variant.
    pub open spec fn opcode(self) -> int {
        match self {
            Instruction::NOP => 0,
            Instruction::HLT => 1,
            Instruction::ADD { .. } => 2,
            Instruction::SUB { .. } => 3,
            Instruction::NOR { .. } => 4,
            Instruction::AND { .. } => 5,
            Instruction::XOR { .. } => 6,
            Instruction::RSH { .. } => 7,
            Instruction::LDI { .. } => 8,
            Instruction::ADI { .. } => 9,
            Instruction::JMP { .. } => 10,
            Instruction::BRH { .. } => 11,
            Instruction::CAL { .. } => 12,
            Instruction::RET => 13,
            Instruction::LOD { .. } => 14,
            Instruction::STR { .. } => 15,
        }
    }

    /// The low twelve bits of the machine word.
    pub open spec fn operand_bits(self) -> int {
        match self {
            Instruction::ADD { a, b, c } | Instruction::SUB { a, b, c } | Instruction::NOR {
                a,
                b,
                c,
            } | Instruction::AND { a, b, c } | Instruction::XOR { a, b, c } => a * 256 + b * 16
                + c,
            Instruction::RSH { a, c } => a * 256 + c,
            Instruction::LDI { a, imm } | Instruction::ADI { a, imm } => a * 256 + imm,
            Instruction::JMP { addr } | Instruction::CAL { addr } => addr as int,
            Instruction::BRH { cond, addr } => cond * 1024 + addr,
            Instruction::LOD { a, b, offset } | Instruction::STR { a, b, offset } => a * 256 + b
                * 16 + offset,
            _ => 0,
        }
    }

    /// The machine word of a well-formed instruction.
    pub open spec fn encode(self) -> int {
        self.opcode() * 4096 + self.operand_bits()
    }

    /// The instruction a machine word stands for; every word has one.
    pub open spec fn decode(w: u16) -> Instruction {
        let op = w / 4096;
        let a = ((w / 256) % 16) as u8;
        let b = ((w / 16) % 16) as u8;
        let c = (w % 16) as u8;
        let imm = (w % 256) as u8;
        let addr = (w % 1024) as u16;
        let cond = ((w / 1024) % 4) as u8;
        if op == 0 {
            Instruction::NOP
        } else if op == 1 {
            Instruction::HLT
        } else if op == 2 {
            Instruction::ADD { a, b, c }
        } else if op == 3 {
            Instruction::SUB { a, b, c }
        } else if op == 4 {
            Instruction::NOR { a, b, c }
        } else if op == 5 {
            Instruction::AND { a, b, c }
        } else if op == 6 {
            Instruction::XOR { a, b, c }
        } else if op == 7 {
            Instruction::RSH { a, c }
        } else if op == 8 {
            Instruction::LDI { a, imm }
        } else if op == 9 {
            Instruction::ADI { a, imm }
        } else if op == 10 {
            Instruction::JMP { addr }
        } else if op == 11 {
            Instruction::BRH { cond, addr }
        } else if op == 12 {
            Instruction::CAL { addr }
        } else if op == 13 {
            Instruction::RET
        } else if op == 14 {
            Instruction::LOD { a, b, offset: c }
        } else {
            Instruction::STR { a, b, offset: c }
        }
    }

    /// Whether every operand fits its bit field.
    pub fn is_wf(&self) -> (r: bool)
        ensures
            r == self.wf(),
    {
        match *self {
            Instruction::ADD { a, b, c } | Instruction::SUB { a, b, c } | Instruction::NOR {
                a,
                b,
                c,
            } | Instruction::AND { a, b, c } | Instruction::XOR { a, b, c } => a < 16 && b < 16
                && c < 16,
            Instruction::RSH { a, c } => a < 16 && c < 16,
            Instruction::LDI { a, .. } | Instruction::ADI { a, .. } => a < 16,
            Instruction::JMP { addr } | Instruction::CAL { addr } => addr < 1024,
            Instruction::BRH { cond, addr } => cond < 4 && addr < 1024,
            Instruction::LOD { a, b, offset } | Instruction::STR { a, b, offset } => a < 16 && b
                < 16 && offset < 16,
            _ => true,
        }
    }

    /// The machine word: opcode in the top nibble, operands packed below it.
    pub fn as_u16(self) -> (r: u16)
        requires
            self.wf(),
        ensures
            r as int == self.encode(),
    {
        match self {
            Instruction::NOP => 0x0000,
            Instruction::HLT => 0x1000,
            Instruction::ADD { a, b, c } => 0x2000 + (a as u16) * 256 + (b as u16) * 16 + c as u16,
            Instruction::SUB { a, b, c } => 0x3000 + (a as u16) * 256 + (b as u16) * 16 + c as u16,
            Instruction::NOR { a, b, c } => 0x4000 + (a as u16) * 256 + (b as u16) * 16 + c as u16,
            Instruction::AND { a, b, c } => 0x5000 + (a as u16) * 256 + (b as u16) * 16 + c as u16,
            Instruction::XOR { a, b, c } => 0x6000 + (a as u16) * 256 + (b as u16) * 16 + c as u16,
            Instruction::RSH { a, c } => 0x7000 + (a as u16) * 256 + c as u16,
            Instruction::LDI { a, imm } => 0x8000 + (a as u16) * 256 + imm as u16,
            Instruction::ADI { a, imm } => 0x9000 + (a as u16) * 256 + imm as u16,
            Instruction::JMP { addr } => 0xA000 + addr,
            Instruction::BRH { cond, addr } => 0xB000 + (cond as u16) * 1024 + addr,
            Instruction::CAL { addr } => 0xC000 + addr,
            Instruction::RET => 0xD000,
            Instruction::LOD { a, b, offset } => 0xE000 + (a as u16) * 256 + (b as u16) * 16
                + offset as u16,
            Instruction::STR { a, b, offset } => 0xF000 + (a as u16) * 256 + (b as u16) * 16
                + offset as u16,
        }
    }

    /// Decodes a machine word; total over all words.
    pub fn from_u16(w: u16) -> (r: Instruction)
        ensures
            r == Instruction::decode(w),
            r.wf(),
            r.opcode() == w / 4096,
    {
        let op = w / 4096;
        let a = ((w / 256) % 16) as u8;
        let b = ((w / 16) % 16) as u8;
        let c = (w % 16) as u8;
        let imm = (w % 256) as u8;
        let addr = w % 1024;
        let cond = ((w / 1024) % 4) as u8;
        if op == 0 {
            Instruction::NOP
        } else if op == 1 {
            Instruction::HLT
        } else if op == 2 {
            Instruction::ADD { a, b, c }
        } else if op == 3 {
            Instruction::SUB { a, b, c }
        } else if op == 4 {
            Instruction::NOR { a, b, c }
        } else if op == 5 {
            Instruction::AND { a, b, c }
        } else if op == 6 {
            Instruction::XOR { a, b, c }
        } else if op == 7 {
            Instruction::RSH { a, c }
        } else if op == 8 {
            Instruction::LDI { a, imm }
        } else if op == 9 {
            Instruction::ADI { a, imm }
        } else if op == 10 {
            Instruction::JMP { addr }
        } else if op == 11 {
            Instruction::BRH { cond, addr }
        } else if op == 12 {
            Instruction::CAL { addr }
        } else if op == 13 {
            Instruction::RET
        } else if op == 14 {
            Instruction::LOD { a, b, offset: c }
        } else {
            Instruction::STR { a, b, offset: c }
        }
    }
}

impl From<u16> for Instruction {
    fn from(w: u16) -> (r: Instruction)
        ensures
            r == Instruction::decode(w),
    {
        Instruction::from_u16(w)
    }
}

impl vstd::std_specs::convert::FromSpecImpl<u16> for Instruction {
    open spec fn obeys_from_spec() -> bool {
        true
    }

    open spec fn from_spec(w: u16) -> Instruction {
        Instruction::decode(w)
    }
}

proof fn lemma_nibbles(op: int, x: int, y: int, z: int)
    requires
        0 <= op < 16,
        0 <= x < 16,
        0 <= y < 16,
        0 <= z < 16,
    ensures
        (op * 4096 + x * 256 + y * 16 + z) / 4096 == op,
        ((op * 4096 + x * 256 + y * 16 + z) / 256) % 16 == x,
        ((op * 4096 + x * 256 + y * 16 + z) / 16) % 16 == y,
        (op * 4096 + x * 256 + y * 16 + z) % 16 == z,
{
    assert((op * 4096 + x * 256 + y * 16 + z) / 4096 == op) by (nonlinear_arith)
        requires 0 <= op < 16, 0 <= x < 16, 0 <= y < 16, 0 <= z < 16;
    assert(((op * 4096 + x * 256 + y * 16 + z) / 256) == op * 16 + x) by (nonlinear_arith)
        requires 0 <= op < 16, 0 <= x < 16, 0 <= y < 16, 0 <= z < 16;
    assert((op * 16 + x) % 16 == x) by (nonlinear_arith)
        requires 0 <= op < 16, 0 <= x < 16;
    assert(((op * 4096 + x * 256 + y * 16 + z) / 16) == op * 256 + x * 16 + y) by (nonlinear_arith)
        requires 0 <= op < 16, 0 <= x < 16, 0 <= y < 16, 0 <= z < 16;
    assert((op * 256 + x * 16 + y) % 16 == y) by (nonlinear_arith)
        requires 0 <= op < 16, 0 <= x < 16, 0 <= y < 16;
    assert((op * 4096 + x * 256 + y * 16 + z) % 16 == z) by (nonlinear_arith)
        requires 0 <= op < 16, 0 <= x < 16, 0 <= y < 16, 0 <= z < 16;
}

proof fn lemma_reg_imm(op: int, x: int, imm: int)
    requires
        0 <= op < 16,
        0 <= x < 16,
        0 <= imm < 256,
    ensures
        (op * 4096 + x * 256 + imm) / 4096 == op,
        ((op * 4096 + x * 256 + imm) / 256) % 16 == x,
        (op * 4096 + x * 256 + imm) % 256 == imm,
{
    assert((op * 4096 + x * 256 + imm) / 4096 == op) by (nonlinear_arith)
        requires 0 <= op < 16, 0 <= x < 16, 0 <= imm < 256;
    assert((op * 4096 + x * 256 + imm) / 256 == op * 16 + x) by (nonlinear_arith)
        requires 0 <= op < 16, 0 <= x < 16, 0 <= imm < 256;
    assert((op * 16 + x) % 16 == x) by (nonlinear_arith)
        requires 0 <= op < 16, 0 <= x < 16;
    assert((op * 4096 + x * 256 + imm) % 256 == imm) by (nonlinear_arith)
        requires 0 <= op < 16, 0 <= x < 16, 0 <= imm < 256;
}

proof fn lemma_cond_addr(op: int, cond: int, addr: int)
    requires
        0 <= op < 16,
        0 <= cond < 4,
        0 <= addr < 1024,
    ensures
        (op * 4096 + cond * 1024 + addr) / 4096 == op,
        ((op * 4096 + cond * 1024 + addr) / 1024) % 4 == cond,
        (op * 4096 + cond * 1024 + addr) % 1024 == addr,
{
    assert((op * 4096 + cond * 1024 + addr) / 4096 == op) by (nonlinear_arith)
        requires 0 <= op < 16, 0 <= cond < 4, 0 <= addr < 1024;
    assert((op * 4096 + cond * 1024 + addr) / 1024 == op * 4 + cond) by (nonlinear_arith)
        requires 0 <= op < 16, 0 <= cond < 4, 0 <= addr < 1024;
    assert((op * 4 + cond) % 4 == cond) by (nonlinear_arith)
        requires 0 <= op < 16, 0 <= cond < 4;
    assert((op * 4096 + cond * 1024 + addr) % 1024 == addr) by (nonlinear_arith)
        requires 0 <= op < 16, 0 <= cond < 4, 0 <= addr < 1024;
}

/// Decoding the word of a well-formed instruction gives the instruction back.
pub proof fn lemma_encode_decode(i: Instruction)
    requires
        i.wf(),
    ensures
        0 <= i.encode() < 0x10000,
        Instruction::decode(i.encode() as u16) == i,
{
    let op = i.opcode();
    match i {
        Instruction::ADD { a, b, c } | Instruction::SUB { a, b, c } | Instruction::NOR { a, b, c }
        | Instruction::AND { a, b, c } | Instruction::XOR { a, b, c } => {
            lemma_nibbles(op, a as int, b as int, c as int);
        },
        Instruction::LOD { a, b, offset } | Instruction::STR { a, b, offset } => {
            lemma_nibbles(op, a as int, b as int, offset as int);
        },
        Instruction::RSH { a, c } => {
            lemma_nibbles(op, a as int, 0, c as int);
        },
        Instruction::LDI { a, imm } | Instruction::ADI { a, imm } => {
            lemma_reg_imm(op, a as int, imm as int);
        },
        Instruction::JMP { addr } | Instruction::CAL { addr } => {
            lemma_cond_addr(op, 0, addr as int);
        },
        Instruction::BRH { cond, addr } => {
            lemma_cond_addr(op, cond as int, addr as int);
        },
        _ => {
            lemma_nibbles(op, 0, 0, 0);
        },
    }
}

/// Every 16-bit word decodes to a well-formed instruction whose opcode is the
/// word's top nibble.
pub proof fn lemma_decode_total(w: u16)
    ensures
        Instruction::decode(w).wf(),
        Instruction::decode(w).opcode() == w / 4096,
{
}

/// The kind of value an operand position holds.
#[derive(Debug, Copy, Clone, PartialEq, Eq, Structural)]
pub enum Field {
    Reg,
    Imm,
    Addr,
    Cond,
    Offset,
}

impl Field {
    /// The largest value the field's bits can hold.
    pub open spec fn max_spec(self) -> u16 {
        match self {
            Field::Reg => 15,
            Field::Imm => 255,
            Field::Addr => 1023,
            Field::Cond => 3,
            Field::Offset => 15,
        }
    }

    pub fn max(self) -> (r: u16)
        ensures
            r == self.max_spec(),
    {
        match self {
            Field::Reg => 15,
            Field::Imm => 255,
            Field::Addr => 1023,
            Field::Cond => 3,
            Field::Offset => 15,
        }
    }
}

/// Why a mnemonic and its operands do not form an instruction.
#[derive(Debug, Copy, Clone, PartialEq, Eq, Structural)]
pub enum IsaError {
    /// The name is neither an instruction nor an alias.
    UnknownMnemonic,
    /// The mnemonic takes `expected` operands but `actual` were given.
    OperandCount { expected: usize, actual: usize },
    /// Operand `index` exceeds `max`, the largest value its field holds.
    OperandRange { index: usize, field: Field, max: u16 },
}

/// A name in assembly source: one per instruction, plus the aliases, which
/// rewrite their operands into an instruction of another name.
#[derive(Debug, Copy, Clone, PartialEq, Eq, Structural)]
pub enum Mnemonic {
    NOP,
    HLT,
    ADD,
    SUB,
    NOR,
    AND,
    XOR,
    RSH,
    LDI,
    ADI,
    JMP,
    BRH,
    CAL,
    RET,
    LOD,
    STR,
    CMP,
    MOV,
    LSH,
    INC,
    DEC,
    NOT,
    NEG,
}

/// The upper-case ASCII spelling of a mnemonic.
pub open spec fn mnemonic_name(m: Mnemonic) -> Seq<u8> {
    match m {
        Mnemonic::NOP => seq![78u8, 79u8, 80u8],
        Mnemonic::HLT => seq![72u8, 76u8, 84u8],
        Mnemonic::ADD => seq![65u8, 68u8, 68u8],
        Mnemonic::SUB => seq![83u8, 85u8, 66u8],
        Mnemonic::NOR => seq![78u8, 79u8, 82u8],
        Mnemonic::AND => seq![65u8, 78u8, 68u8],
        Mnemonic::XOR => seq![88u8, 79u8, 82u8],
        Mnemonic::RSH => seq![82u8, 83u8, 72u8],
        Mnemonic::LDI => seq![76u8, 68u8, 73u8],
        Mnemonic::ADI => seq![65u8, 68u8, 73u8],
        Mnemonic::JMP => seq![74u8, 77u8, 80u8],
        Mnemonic::BRH => seq![66u8, 82u8, 72u8],
        Mnemonic::CAL => seq![67u8, 65u8, 76u8],
        Mnemonic::RET => seq![82u8, 69u8, 84u8],
        Mnemonic::LOD => seq![76u8, 79u8, 68u8],
        Mnemonic::STR => seq![83u8, 84u8, 82u8],
        Mnemonic::CMP => seq![67u8, 77u8, 80u8],
        Mnemonic::MOV => seq![77u8, 79u8, 86u8],
        Mnemonic::LSH => seq![76u8, 83u8, 72u8],
        Mnemonic::INC => seq![73u8, 78u8, 67u8],
        Mnemonic::DEC => seq![68u8, 69u8, 67u8],
        Mnemonic::NOT => seq![78u8, 79u8, 84u8],
        Mnemonic::NEG => seq![78u8, 69u8, 71u8],
    }
}

/// The mnemonic spelled by `s`, if any.
pub open spec fn mnemonic_of_name(s: Seq<u8>) -> Option<Mnemonic> {
    if s == seq![78u8, 79u8, 80u8] {
        Some(Mnemonic::NOP)
    }     else if s == seq![72u8, 76u8, 84u8] {
        Some(Mnemonic::HLT)
    }     else if s == seq![65u8, 68u8, 68u8] {
        Some(Mnemonic::ADD)
    }     else if s == seq![83u8, 85u8, 66u8] {
        Some(Mnemonic::SUB)
    }     else if s == seq![78u8, 79u8, 82u8] {
        Some(Mnemonic::NOR)
    }     else if s == seq![65u8, 78u8, 68u8] {
        Some(Mnemonic::AND)
    }     else if s == seq![88u8, 79u8, 82u8] {
        Some(Mnemonic::XOR)
    }     else if s == seq![82u8, 83u8, 72u8] {
        Some(Mnemonic::RSH)
    }     else if s == seq![76u8, 68u8, 73u8] {
        Some(Mnemonic::LDI)
    }     else if s == seq![65u8, 68u8, 73u8] {
        Some(Mnemonic::ADI)
    }     else if s == seq![74u8, 77u8, 80u8] {
        Some(Mnemonic::JMP)
    }     else if s == seq![66u8, 82u8, 72u8] {
        Some(Mnemonic::BRH)
    }     else if s == seq![67u8, 65u8, 76u8] {
        Some(Mnemonic::CAL)
    }     else if s == seq![82u8, 69u8, 84u8] {
        Some(Mnemonic::RET)
    }     else if s == seq![76u8, 79u8, 68u8] {
        Some(Mnemonic::LOD)
    }     else if s == seq![83u8, 84u8, 82u8] {
        Some(Mnemonic::STR)
    }     else if s == seq![67u8, 77u8, 80u8] {
        Some(Mnemonic::CMP)
    }     else if s == seq![77u8, 79u8, 86u8] {
        Some(Mnemonic::MOV)
    }     else if s == seq![76u8, 83u8, 72u8] {
        Some(Mnemonic::LSH)
    }     else if s == seq![73u8, 78u8, 67u8] {
        Some(Mnemonic::INC)
    }     else if s == seq![68u8, 69u8, 67u8] {
        Some(Mnemonic::DEC)
    }     else if s == seq![78u8, 79u8, 84u8] {
        Some(Mnemonic::NOT)
    }     else if s == seq![78u8, 69u8, 71u8] {
        Some(Mnemonic::NEG)
    } else {
        None
    }
}

/// The operand fields a mnemonic takes in source order.
pub open spec fn fields_of(m: Mnemonic) -> Seq<Field> {
    match m {
        Mnemonic::NOP => seq![],
        Mnemonic::HLT => seq![],
        Mnemonic::ADD => seq![Field::Reg, Field::Reg, Field::Reg],
        Mnemonic::SUB => seq![Field::Reg, Field::Reg, Field::Reg],
        Mnemonic::NOR => seq![Field::Reg, Field::Reg, Field::Reg],
        Mnemonic::AND => seq![Field::Reg, Field::Reg, Field::Reg],
        Mnemonic::XOR => seq![Field::Reg, Field::Reg, Field::Reg],
        Mnemonic::RSH => seq![Field::Reg, Field::Reg],
        Mnemonic::LDI => seq![Field::Reg, Field::Imm],
        Mnemonic::ADI => seq![Field::Reg, Field::Imm],
        Mnemonic::JMP => seq![Field::Addr],
        Mnemonic::BRH => seq![Field::Cond, Field::Addr],
        Mnemonic::CAL => seq![Field::Addr],
        Mnemonic::RET => seq![],
        Mnemonic::LOD => seq![Field::Reg, Field::Reg, Field::Offset],
        Mnemonic::STR => seq![Field::Reg, Field::Reg, Field::Offset],
        Mnemonic::CMP => seq![Field::Reg, Field::Reg],
        Mnemonic::MOV => seq![Field::Reg, Field::Reg],
        Mnemonic::LSH => seq![Field::Reg, Field::Reg],
        Mnemonic::INC => seq![Field::Reg],
        Mnemonic::DEC => seq![Field::Reg],
        Mnemonic::NOT => seq![Field::Reg, Field::Reg],
        Mnemonic::NEG => seq![Field::Reg, Field::Reg],
    }
}

/// The position of the first operand that does not fit its field, at or after `i`.
pub open spec fn first_out_of_range(m: Mnemonic, ops: Seq<u16>, i: nat) -> Option<nat>
    decreases ops.len() - i,
{
    if i >= ops.len() || i >= fields_of(m).len() {
        None
    } else if ops[i as int] > fields_of(m)[i as int].max_spec() {
        Some(i)
    } else {
        first_out_of_range(m, ops, i + 1)
    }
}

/// The instruction that a mnemonic with operands fitting its fields stands for;
/// aliases are expanded here.
pub open spec fn instr_of(m: Mnemonic, ops: Seq<u16>) -> Instruction {
    let r0 = ops[0] as u8;
    let r1 = ops[1] as u8;
    let r2 = ops[2] as u8;
    match m {
        Mnemonic::NOP => Instruction::NOP,
        Mnemonic::HLT => Instruction::HLT,
        Mnemonic::ADD => Instruction::ADD { a: r0, b: r1, c: r2 },
        Mnemonic::SUB => Instruction::SUB { a: r0, b: r1, c: r2 },
        Mnemonic::NOR => Instruction::NOR { a: r0, b: r1, c: r2 },
        Mnemonic::AND => Instruction::AND { a: r0, b: r1, c: r2 },
        Mnemonic::XOR => Instruction::XOR { a: r0, b: r1, c: r2 },
        Mnemonic::RSH => Instruction::RSH { a: r0, c: r1 },
        Mnemonic::LDI => Instruction::LDI { a: r0, imm: r1 },
        Mnemonic::ADI => Instruction::ADI { a: r0, imm: r1 },
        Mnemonic::JMP => Instruction::JMP { addr: ops[0] },
        Mnemonic::BRH => Instruction::BRH { cond: r0, addr: ops[1] },
        Mnemonic::CAL => Instruction::CAL { addr: ops[0] },
        Mnemonic::RET => Instruction::RET,
        Mnemonic::LOD => Instruction::LOD { a: r0, b: r1, offset: r2 },
        Mnemonic::STR => Instruction::STR { a: r0, b: r1, offset: r2 },
        Mnemonic::CMP => Instruction::SUB { a: r0, b: r1, c: 0 },
        Mnemonic::MOV => Instruction::ADD { a: r0, b: 0, c: r1 },
        Mnemonic::LSH => Instruction::ADD { a: r0, b: r0, c: r1 },
        Mnemonic::INC => Instruction::ADI { a: r0, imm: 1 },
        Mnemonic::DEC => Instruction::ADI { a: r0, imm: 255 },
        Mnemonic::NOT => Instruction::NOR { a: r0, b: 0, c: r1 },
        Mnemonic::NEG => Instruction::SUB { a: 0, b: r0, c: r1 },
    }
}

/// What building an instruction from a mnemonic and operands gives: the count
/// is checked first, then each operand in order against its field.
pub open spec fn build(m: Mnemonic, ops: Seq<u16>) -> Result<Instruction, IsaError> {
    if ops.len() != fields_of(m).len() {
        Err(IsaError::OperandCount { expected: fields_of(m).len() as usize, actual: ops.len() as usize })
    } else {
        match first_out_of_range(m, ops, 0) {
            Some(k) => Err(
                IsaError::OperandRange {
                    index: k as usize,
                    field: fields_of(m)[k as int],
                    max: fields_of(m)[k as int].max_spec(),
                },
            ),
            None => Ok(instr_of(m, ops)),
        }
    }
}

impl Mnemonic {
    /// Looks a mnemonic up by its upper-case spelling.
    pub fn from_name(s: &[u8]) -> (r: Option<Mnemonic>)
        ensures
            r == mnemonic_of_name(s@),
    {
        if s.len() != 3 {
            assert forall|m: Mnemonic| mnemonic_name(m).len() == 3 by {}
            return None;
        }
        let (x, y, z) = (s[0], s[1], s[2]);
        assert(s@ == seq![x, y, z]);
        if x == 78 && y == 79 && z == 80 {
            return Some(Mnemonic::NOP);
        }
        if x == 72 && y == 76 && z == 84 {
            return Some(Mnemonic::HLT);
        }
        if x == 65 && y == 68 && z == 68 {
            return Some(Mnemonic::ADD);
        }
        if x == 83 && y == 85 && z == 66 {
            return Some(Mnemonic::SUB);
        }
        if x == 78 && y == 79 && z == 82 {
            return Some(Mnemonic::NOR);
        }
        if x == 65 && y == 78 && z == 68 {
            return Some(Mnemonic::AND);
        }
        if x == 88 && y == 79 && z == 82 {
            return Some(Mnemonic::XOR);
        }
        if x == 82 && y == 83 && z == 72 {
            return Some(Mnemonic::RSH);
        }
        if x == 76 && y == 68 && z == 73 {
            return Some(Mnemonic::LDI);
        }
        if x == 65 && y == 68 && z == 73 {
            return Some(Mnemonic::ADI);
        }
        if x == 74 && y == 77 && z == 80 {
            return Some(Mnemonic::JMP);
        }
        if x == 66 && y == 82 && z == 72 {
            return Some(Mnemonic::BRH);
        }
        if x == 67 && y == 65 && z == 76 {
            return Some(Mnemonic::CAL);
        }
        if x == 82 && y == 69 && z == 84 {
            return Some(Mnemonic::RET);
        }
        if x == 76 && y == 79 && z == 68 {
            return Some(Mnemonic::LOD);
        }
        if x == 83 && y == 84 && z == 82 {
            return Some(Mnemonic::STR);
        }
        if x == 67 && y == 77 && z == 80 {
            return Some(Mnemonic::CMP);
        }
        if x == 77 && y == 79 && z == 86 {
            return Some(Mnemonic::MOV);
        }
        if x == 76 && y == 83 && z == 72 {
            return Some(Mnemonic::LSH);
        }
        if x == 73 && y == 78 && z == 67 {
            return Some(Mnemonic::INC);
        }
        if x == 68 && y == 69 && z == 67 {
            return Some(Mnemonic::DEC);
        }
        if x == 78 && y == 79 && z == 84 {
            return Some(Mnemonic::NOT);
        }
        if x == 78 && y == 69 && z == 71 {
            return Some(Mnemonic::NEG);
        }
        None
    }

    /// The number of operands the mnemonic takes.
    pub fn arity(self) -> (r: usize)
        ensures
            r == fields_of(self).len(),
    {
        match self {
            Mnemonic::NOP => 0,
            Mnemonic::HLT => 0,
            Mnemonic::ADD => 3,
            Mnemonic::SUB => 3,
            Mnemonic::NOR => 3,
            Mnemonic::AND => 3,
            Mnemonic::XOR => 3,
            Mnemonic::RSH => 2,
            Mnemonic::LDI => 2,
            Mnemonic::ADI => 2,
            Mnemonic::JMP => 1,
            Mnemonic::BRH => 2,
            Mnemonic::CAL => 1,
            Mnemonic::RET => 0,
            Mnemonic::LOD => 3,
            Mnemonic::STR => 3,
            Mnemonic::CMP => 2,
            Mnemonic::MOV => 2,
            Mnemonic::LSH => 2,
            Mnemonic::INC => 1,
            Mnemonic::DEC => 1,
            Mnemonic::NOT => 2,
            Mnemonic::NEG => 2,
        }
    }

    /// The field of operand `i`.
    pub fn field(self, i: usize) -> (r: Field)
        requires
            i < fields_of(self).len(),
        ensures
            r == fields_of(self)[i as int],
    {
        match self {
            Mnemonic::NOP => Field::Reg,
            Mnemonic::HLT => Field::Reg,
            Mnemonic::ADD => Field::Reg,
            Mnemonic::SUB => Field::Reg,
            Mnemonic::NOR => Field::Reg,
            Mnemonic::AND => Field::Reg,
            Mnemonic::XOR => Field::Reg,
            Mnemonic::RSH => Field::Reg,
            Mnemonic::LDI => if i == 0 {
                Field::Reg
            } else {
                Field::Imm
            },
            Mnemonic::ADI => if i == 0 {
                Field::Reg
            } else {
                Field::Imm
            },
            Mnemonic::JMP => Field::Addr,
            Mnemonic::BRH => if i == 0 {
                Field::Cond
            } else {
                Field::Addr
            },
            Mnemonic::CAL => Field::Addr,
            Mnemonic::RET => Field::Reg,
            Mnemonic::LOD => if i == 0 {
                Field::Reg
            } else if i == 1 {
                Field::Reg
            } else {
                Field::Offset
            },
            Mnemonic::STR => if i == 0 {
                Field::Reg
            } else if i == 1 {
                Field::Reg
            } else {
                Field::Offset
            },
            Mnemonic::CMP => Field::Reg,
            Mnemonic::MOV => Field::Reg,
            Mnemonic::LSH => Field::Reg,
            Mnemonic::INC => Field::Reg,
            Mnemonic::DEC => Field::Reg,
            Mnemonic::NOT => Field::Reg,
            Mnemonic::NEG => Field::Reg,
        }
    }
}

/// Every mnemonic is found again by its spelling.
pub proof fn lemma_name_round_trip(m: Mnemonic)
    ensures
        mnemonic_of_name(mnemonic_name(m)) == Some(m),
{
}

/// With no operand out of range from `i` on, every operand from `i` on fits.
proof fn lemma_in_range(m: Mnemonic, ops: Seq<u16>, i: nat)
    requires
        ops.len() == fields_of(m).len(),
        first_out_of_range(m, ops, i) is None,
    ensures
        forall|k: int| i <= k < ops.len() ==> ops[k] <= #[trigger] fields_of(m)[k].max_spec(),
    decreases ops.len() - i,
{
    if i < ops.len() {
        lemma_in_range(m, ops, i + 1);
    }
}

impl Instruction {
    /// Builds the instruction a mnemonic with resolved operands stands for,
    /// expanding aliases.
    pub fn new(m: Mnemonic, ops: &[u16]) -> (r: Result<Instruction, IsaError>)
        ensures
            r == build(m, ops@),
            r is Ok ==> r->Ok_0.wf(),
    {
        let n = m.arity();
        if ops.len() != n {
            return Err(IsaError::OperandCount { expected: n, actual: ops.len() });
        }
        let mut i: usize = 0;
        while i < n
            invariant
                n == fields_of(m).len(),
                ops@.len() == n,
                i <= n,
                first_out_of_range(m, ops@, 0) == first_out_of_range(m, ops@, i as nat),
            decreases n - i,
        {
            let f = m.field(i);
            let mx = f.max();
            if ops[i] > mx {
                return Err(IsaError::OperandRange { index: i, field: f, max: mx });
            }
            i = i + 1;
        }
        proof {
            lemma_in_range(m, ops@, 0);
            assert(n > 0 ==> ops@[0] <= fields_of(m)[0].max_spec());
            assert(n > 1 ==> ops@[1] <= fields_of(m)[1].max_spec());
            assert(n > 2 ==> ops@[2] <= fields_of(m)[2].max_spec());
        }
        let r = match m {
            Mnemonic::NOP => Instruction::NOP,
            Mnemonic::HLT => Instruction::HLT,
            Mnemonic::ADD => Instruction::ADD { a: ops[0] as u8, b: ops[1] as u8, c: ops[2] as u8 },
            Mnemonic::SUB => Instruction::SUB { a: ops[0] as u8, b: ops[1] as u8, c: ops[2] as u8 },
            Mnemonic::NOR => Instruction::NOR { a: ops[0] as u8, b: ops[1] as u8, c: ops[2] as u8 },
            Mnemonic::AND => Instruction::AND { a: ops[0] as u8, b: ops[1] as u8, c: ops[2] as u8 },
            Mnemonic::XOR => Instruction::XOR { a: ops[0] as u8, b: ops[1] as u8, c: ops[2] as u8 },
            Mnemonic::RSH => Instruction::RSH { a: ops[0] as u8, c: ops[1] as u8 },
            Mnemonic::LDI => Instruction::LDI { a: ops[0] as u8, imm: ops[1] as u8 },
            Mnemonic::ADI => Instruction::ADI { a: ops[0] as u8, imm: ops[1] as u8 },
            Mnemonic::JMP => Instruction::JMP { addr: ops[0] },
            Mnemonic::BRH => Instruction::BRH { cond: ops[0] as u8, addr: ops[1] },
            Mnemonic::CAL => Instruction::CAL { addr: ops[0] },
            Mnemonic::RET => Instruction::RET,
            Mnemonic::LOD => Instruction::LOD { a: ops[0] as u8, b: ops[1] as u8, offset: ops[2] as u8 },
            Mnemonic::STR => Instruction::STR { a: ops[0] as u8, b: ops[1] as u8, offset: ops[2] as u8 },
            Mnemonic::CMP => Instruction::SUB { a: ops[0] as u8, b: ops[1] as u8, c: 0 },
            Mnemonic::MOV => Instruction::ADD { a: ops[0] as u8, b: 0, c: ops[1] as u8 },
            Mnemonic::LSH => Instruction::ADD { a: ops[0] as u8, b: ops[0] as u8, c: ops[1] as u8 },
            Mnemonic::INC => Instruction::ADI { a: ops[0] as u8, imm: 1 },
            Mnemonic::DEC => Instruction::ADI { a: ops[0] as u8, imm: 255 },
            Mnemonic::NOT => Instruction::NOR { a: ops[0] as u8, b: 0, c: ops[1] as u8 },
            Mnemonic::NEG => Instruction::SUB { a: 0, b: ops[0] as u8, c: ops[1] as u8 },
        };
        Ok(r)
    }
}

/// Each alias builds the same instruction, and so the same machine word, as
/// its documented expansion over the zero register or a fixed immediate.
pub proof fn lemma_alias_expansion(a: u16, c: u16)
    requires
        a < 16,
        c < 16,
    ensures
        build(Mnemonic::CMP, seq![a, c]) == build(Mnemonic::SUB, seq![a, c, 0u16]),
        build(Mnemonic::MOV, seq![a, c]) == build(Mnemonic::ADD, seq![a, 0u16, c]),
        build(Mnemonic::LSH, seq![a, c]) == build(Mnemonic::ADD, seq![a, a, c]),
        build(Mnemonic::INC, seq![a]) == build(Mnemonic::ADI, seq![a, 1u16]),
        build(Mnemonic::DEC, seq![a]) == build(Mnemonic::ADI, seq![a, 255u16]),
        build(Mnemonic::NOT, seq![a, c]) == build(Mnemonic::NOR, seq![a, 0u16, c]),
        build(Mnemonic::NEG, seq![a, c]) == build(Mnemonic::SUB, seq![0u16, a, c]),
        build(Mnemonic::CMP, seq![a, c]) is Ok,
        build(Mnemonic::MOV, seq![a, c]) is Ok,
        build(Mnemonic::LSH, seq![a, c]) is Ok,
        build(Mnemonic::INC, seq![a]) is Ok,
        build(Mnemonic::DEC, seq![a]) is Ok,
        build(Mnemonic::NOT, seq![a, c]) is Ok,
        build(Mnemonic::NEG, seq![a, c]) is Ok,
{
    reveal_with_fuel(first_out_of_range, 4);
}

/// A mnemonic and operands that build give a well-formed instruction.
pub proof fn lemma_build_wf(m: Mnemonic, ops: Seq<u16>)
    requires
        build(m, ops) is Ok,
    ensures
        build(m, ops)->Ok_0.wf(),
{
    lemma_in_range(m, ops, 0);
    let n = fields_of(m).len();
    assert(n > 0 ==> ops[0] <= fields_of(m)[0].max_spec());
    assert(n > 1 ==> ops[1] <= fields_of(m)[1].max_spec());
    assert(n > 2 ==> ops[2] <= fields_of(m)[2].max_spec());
}

} // verus!
