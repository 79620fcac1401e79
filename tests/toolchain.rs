use batpu2::assembler::{assemble, AsmError, AsmErrorKind};
use batpu2::glyph::{Char, CharError};
use batpu2::isa::{Field, Instruction, IsaError, Mnemonic};
use batpu2::lex::LexError;
use batpu2::mc::{from_mc, is_machine_code, load, to_mc, McError, ProgramError};

#[test]
fn glyph_table() {
    assert_eq!(Char::new(0).to_char(), Some(' '));
    assert_eq!(Char::new(1).to_char(), Some('A'));
    assert_eq!(Char::new(26).to_char(), Some('Z'));
    assert_eq!(Char::new(27).to_char(), Some('.'));
    assert_eq!(Char::new(28).to_char(), Some('!'));
    assert_eq!(Char::new(29).to_char(), Some('?'));
    assert_eq!(Char::new(30).to_char(), None);
    assert!(Char::new(29).is_valid());
    assert!(!Char::new(30).is_valid());
    assert_eq!(Char::new(7).as_u8(), 7);
}

#[test]
fn glyph_from_char() {
    assert_eq!(Char::from_char('H'), Ok(Char::new(8)));
    assert_eq!(Char::from_char('h'), Ok(Char::new(8)));
    assert_eq!(Char::from_char(' '), Ok(Char::new(0)));
    assert_eq!(Char::from_char('?'), Ok(Char::new(29)));
    assert_eq!(Char::from_char('#'), Err(CharError::NoGlyph('#')));
    assert_eq!(Char::from_char('1'), Err(CharError::NoGlyph('1')));
}

#[test]
fn decode_is_total() {
    for w in 0..=0xFFFFu32 {
        let ins = Instruction::from(w as u16);
        let back = Instruction::from(ins.as_u16());
        assert_eq!(ins, back);
    }
}

#[test]
fn encode_decode_round_trip_samples() {
    let samples = [
        Instruction::ADD { a: 15, b: 0, c: 7 },
        Instruction::RSH { a: 3, c: 9 },
        Instruction::LDI { a: 1, imm: 200 },
        Instruction::JMP { addr: 1023 },
        Instruction::BRH { cond: 3, addr: 0 },
        Instruction::STR { a: 2, b: 3, offset: 15 },
        Instruction::RET,
    ];
    for ins in samples {
        assert_eq!(Instruction::from(ins.as_u16()), ins);
    }
}

#[test]
fn build_errors() {
    assert_eq!(
        Instruction::new(Mnemonic::ADD, &[1, 2]),
        Err(IsaError::OperandCount { expected: 3, actual: 2 })
    );
    assert_eq!(
        Instruction::new(Mnemonic::ADD, &[1, 16, 2]),
        Err(IsaError::OperandRange { index: 1, field: Field::Reg, max: 15 })
    );
    assert_eq!(
        Instruction::new(Mnemonic::JMP, &[1024]),
        Err(IsaError::OperandRange { index: 0, field: Field::Addr, max: 1023 })
    );
    assert_eq!(
        Instruction::new(Mnemonic::BRH, &[4, 0]),
        Err(IsaError::OperandRange { index: 0, field: Field::Cond, max: 3 })
    );
    assert_eq!(Instruction::new(Mnemonic::LDI, &[1, 255]), Ok(Instruction::LDI { a: 1, imm: 255 }));
}

#[test]
fn aliases_expand() {
    assert_eq!(Instruction::new(Mnemonic::CMP, &[3, 5]), Instruction::new(Mnemonic::SUB, &[3, 5, 0]));
    assert_eq!(Instruction::new(Mnemonic::MOV, &[3, 5]), Ok(Instruction::ADD { a: 3, b: 0, c: 5 }));
    assert_eq!(Instruction::new(Mnemonic::LSH, &[3, 5]), Ok(Instruction::ADD { a: 3, b: 3, c: 5 }));
    assert_eq!(Instruction::new(Mnemonic::INC, &[4]), Ok(Instruction::ADI { a: 4, imm: 1 }));
    assert_eq!(Instruction::new(Mnemonic::DEC, &[4]), Ok(Instruction::ADI { a: 4, imm: 255 }));
    assert_eq!(Instruction::new(Mnemonic::NOT, &[3, 5]), Ok(Instruction::NOR { a: 3, b: 0, c: 5 }));
    assert_eq!(Instruction::new(Mnemonic::NEG, &[3, 5]), Ok(Instruction::SUB { a: 0, b: 3, c: 5 }));
}

#[test]
fn assemble_alias_matches_expansion() {
    let a = assemble("cmp r3, r5\nmov r1 r2\nneg r4, r6\n").unwrap();
    let b = assemble("sub r3, r5, r0\nadd r1 r0 r2\nsub r0 r4 r6\n").unwrap();
    assert_eq!(a, b);
    let wa: Vec<u16> = a.iter().map(|i| i.as_u16()).collect();
    let wb: Vec<u16> = b.iter().map(|i| i.as_u16()).collect();
    assert_eq!(wa, wb);
}

#[test]
fn assemble_forward_reference() {
    let p = assemble("JMP, L\nL:\nHLT\n").unwrap();
    assert_eq!(p, vec![Instruction::JMP { addr: 1 }, Instruction::HLT]);
    let q = assemble("L:\nHLT\nJMP L\n").unwrap();
    assert_eq!(q, vec![Instruction::HLT, Instruction::JMP { addr: 0 }]);
}

#[test]
fn assemble_operand_forms() {
    let p = assemble("  ldi r1, 0x1F ; comment\n\nldi r2 'B'\nbrh 2 end\nend:\n  nop // done").unwrap();
    assert_eq!(
        p,
        vec![
            Instruction::LDI { a: 1, imm: 31 },
            Instruction::LDI { a: 2, imm: 2 },
            Instruction::BRH { cond: 2, addr: 3 },
            Instruction::NOP,
        ]
    );
}

#[test]
fn assemble_errors() {
    assert_eq!(
        assemble("nop\nfoo r1\n"),
        Err(AsmError { line: 2, kind: AsmErrorKind::Lex(LexError::UnknownMnemonic) })
    );
    assert_eq!(
        assemble("a:\nnop\na:\n"),
        Err(AsmError { line: 3, kind: AsmErrorKind::DuplicateLabel })
    );
    assert_eq!(
        assemble("jmp nowhere\n"),
        Err(AsmError { line: 1, kind: AsmErrorKind::UndefinedLabel })
    );
    assert_eq!(
        assemble("add r1 r2\n"),
        Err(AsmError { line: 1, kind: AsmErrorKind::Isa(IsaError::OperandCount { expected: 3, actual: 2 }) })
    );
    assert_eq!(
        assemble("ldi r1 256\n"),
        Err(AsmError {
            line: 1,
            kind: AsmErrorKind::Isa(IsaError::OperandRange { index: 1, field: Field::Imm, max: 255 })
        })
    );
    assert_eq!(
        assemble("ldi r1 '#'\n"),
        Err(AsmError { line: 1, kind: AsmErrorKind::Lex(LexError::BadChar) })
    );
    assert_eq!(
        assemble("ldi r1 70000\n"),
        Err(AsmError { line: 1, kind: AsmErrorKind::Lex(LexError::BadNumber) })
    );
    assert_eq!(
        assemble("bad label:\n"),
        Err(AsmError { line: 1, kind: AsmErrorKind::Lex(LexError::BadLabel) })
    );
}

#[test]
fn assemble_too_long() {
    let src = "nop\n".repeat(1025);
    assert_eq!(assemble(&src), Err(AsmError { line: 1025, kind: AsmErrorKind::TooLong }));
    assert_eq!(assemble(&"nop\n".repeat(1024)).unwrap().len(), 1024);
}

#[test]
fn machine_code_round_trip() {
    let p = vec![
        Instruction::LDI { a: 1, imm: 250 },
        Instruction::BRH { cond: 1, addr: 0x123 },
        Instruction::STR { a: 15, b: 15, offset: 15 },
        Instruction::HLT,
    ];
    let text = to_mc(&p);
    let s = String::from_utf8(text).unwrap();
    assert_eq!(s.lines().next(), Some("1000000111111010"));
    assert_eq!(from_mc(&s), Ok(p));
}

#[test]
fn machine_code_errors() {
    assert_eq!(from_mc("0001000000000000\n  \n0001"), Err(McError { line: 3 }));
    assert_eq!(from_mc("000100000000000x\n"), Err(McError { line: 1 }));
    assert_eq!(from_mc("\n 0001000000000000 \r\n"), Ok(vec![Instruction::HLT]));
}

#[test]
fn load_sniffs_format() {
    assert!(is_machine_code("1000000111111010\n\n0001000000000000\n"));
    assert!(!is_machine_code("hlt\n"));
    assert_eq!(load("0001000000000000\n"), Ok(vec![Instruction::HLT]));
    assert_eq!(load("hlt\n"), Ok(vec![Instruction::HLT]));
    assert_eq!(
        load("0001000000000000\nhlt\n"),
        Err(ProgramError::Asm(AsmError { line: 1, kind: AsmErrorKind::Lex(LexError::UnknownMnemonic) }))
    );
}

#[test]
fn well_formed_operands() {
    assert!(Instruction::ADD { a: 15, b: 15, c: 15 }.is_wf());
    assert!(!Instruction::ADD { a: 16, b: 0, c: 0 }.is_wf());
    assert!(!Instruction::JMP { addr: 1024 }.is_wf());
    assert!(!Instruction::BRH { cond: 4, addr: 0 }.is_wf());
    assert!(Instruction::LDI { a: 0, imm: 255 }.is_wf());
}
