use m68kasm::addressing::{
    AbsoluteLong, AbsoluteShort, An, Dn, ImmediateData, Indirect, IndirectDisp, IndirectPostInc,
    IndirectPreDec, LeaFirstArg, SrcEA,
};
use m68kasm::ast::{Body, Directive, Expression, Mnemonic, Operand, Operation, Span, Statement};
use m68kasm::codegen::{
    code_for_instr, code_for_statement, get_mode_reg_extra_for_ea, resolve_operation,
    to_displacement,
};
use m68kasm::error::CodeError;
use m68kasm::instruction::{Condition, Instruction};
use m68kasm::parser::ASMParser;
use m68kasm::passes::{assemble, SourceUnit};
use m68kasm::size::{IntSize, SmallSize, WordSize};
use m68kasm::symbols::{NonFailingMap, SymbolTable};

fn assembled(text: &str) -> Vec<u8> {
    let statements = ASMParser::parse(text).unwrap();
    let unit = SourceUnit {
        path: "test.s".to_string(),
        text: text.to_string(),
        statements,
        includes: Vec::new(),
    };
    let (global, end) = assemble(&unit, false);
    assert!(end.is_ok(), "{end:?}");
    assert!(global.diagnostics.is_empty(), "{:?}", global.diagnostics);
    global.code_object.into_iter().flat_map(|(_, code)| code).collect()
}

fn fails(text: &str) -> CodeError {
    let statements = ASMParser::parse(text).unwrap();
    let unit = SourceUnit {
        path: "test.s".to_string(),
        text: text.to_string(),
        statements,
        includes: Vec::new(),
    };
    assemble(&unit, false).1.unwrap_err()
}

fn a(n: u8) -> An {
    An::new(n).unwrap()
}

fn d(n: u8) -> Dn {
    Dn::new(n).unwrap()
}

#[test]
fn registers_have_three_bits() {
    for n in 0..8 {
        assert_eq!(a(n).reg(), n);
        assert_eq!(d(n).reg(), n);
    }
    assert_eq!(An::new(8), None);
    assert_eq!(Dn::new(8), None);
    assert_eq!(Dn::new(255), None);
}

#[test]
fn effective_address_table() {
    let imm = |size, value| SrcEA::ImmediateData(ImmediateData { size, value });
    let cases: Vec<(SrcEA, u8, u8, Vec<u8>)> = vec![
        (SrcEA::Dn(d(3)), 0b000, 3, vec![]),
        (SrcEA::An(a(4)), 0b001, 4, vec![]),
        (SrcEA::Indirect(Indirect(a(5))), 0b010, 5, vec![]),
        (SrcEA::IndirectPostInc(IndirectPostInc(a(6))), 0b011, 6, vec![]),
        (SrcEA::IndirectPreDec(IndirectPreDec(a(7))), 0b100, 7, vec![]),
        (SrcEA::IndirectDisp(IndirectDisp(0x1234, a(2))), 0b101, 2, vec![0x12, 0x34]),
        (SrcEA::AbsoluteShort(AbsoluteShort(0xBEEF)), 0b111, 0b000, vec![0xBE, 0xEF]),
        (SrcEA::AbsoluteLong(AbsoluteLong(0x01020304)), 0b111, 0b001, vec![1, 2, 3, 4]),
        (imm(IntSize::B, 0xFF), 0b111, 0b100, vec![0x00, 0xFF]),
        (imm(IntSize::B, 0x1234), 0b111, 0b100, vec![0x00, 0x34]),
        (imm(IntSize::W, 0x1234), 0b111, 0b100, vec![0x12, 0x34]),
        (imm(IntSize::W, -2), 0b111, 0b100, vec![0xFF, 0xFE]),
        (imm(IntSize::L, 0x12345678), 0b111, 0b100, vec![0x12, 0x34, 0x56, 0x78]),
        (imm(IntSize::L, -1), 0b111, 0b100, vec![0xFF, 0xFF, 0xFF, 0xFF]),
    ];
    for (ea, mode, reg, extension) in cases {
        assert_eq!(ea.mode_bits(), mode, "{ea:?}");
        assert_eq!(ea.register_bits(), reg, "{ea:?}");
        assert_eq!(ea.field_bits(), ((mode as u16) << 3) | reg as u16, "{ea:?}");
        let mut out = vec![0xAA];
        ea.push_extension(&mut out);
        assert_eq!(out[0], 0xAA);
        assert_eq!(&out[1..], &extension[..], "{ea:?}");
    }
}

#[test]
fn operand_gives_mode_register_and_extension() {
    let mut table = SymbolTable::new();
    assert!(table.insert("here".to_string(), 0x00C0FFEE));
    let symbol = Expression::Symbol("here".to_string(), Span { start: 0, end: 4 });
    assert_eq!(
        get_mode_reg_extra_for_ea(&Operand::AbsoluteLong(symbol), IntSize::W, &table, 0),
        Ok((0b111, 0b001, vec![0x00, 0xC0, 0xFF, 0xEE]))
    );
    let symbol = Expression::Symbol("here".to_string(), Span { start: 0, end: 4 });
    assert_eq!(
        get_mode_reg_extra_for_ea(&Operand::AbsoluteShort(symbol), IntSize::W, &table, 0),
        Ok((0b111, 0b000, vec![0xFF, 0xEE]))
    );
    assert_eq!(
        get_mode_reg_extra_for_ea(
            &Operand::IndirectDisp(Expression::Literal(-2), a(3)),
            IntSize::L,
            &table,
            0
        ),
        Ok((0b101, 3, vec![0xFF, 0xFE]))
    );
    assert_eq!(
        get_mode_reg_extra_for_ea(&Operand::Sr, IntSize::W, &table, 0),
        Err(CodeError::InvalidOperands)
    );
    let missing = Expression::Symbol("gone".to_string(), Span { start: 7, end: 11 });
    assert!(matches!(
        get_mode_reg_extra_for_ea(&Operand::Immediate(missing), IntSize::W, &table, 3),
        Err(CodeError::UndefinedSymbols(errors))
            if errors.len() == 1 && errors[0].file == 3
                && errors[0].symbol_loc == Span { start: 7, end: 11 }
    ));
}

#[test]
fn addresses_that_name_a_place_in_memory() {
    let postinc = SrcEA::IndirectPostInc(IndirectPostInc(a(1)));
    assert_eq!(
        LeaFirstArg::from_src(SrcEA::Indirect(Indirect(a(1)))),
        Some(LeaFirstArg::Indirect(Indirect(a(1))))
    );
    assert_eq!(
        LeaFirstArg::from_src(SrcEA::IndirectDisp(IndirectDisp(2, a(1)))),
        Some(LeaFirstArg::IndirectDisp(IndirectDisp(2, a(1))))
    );
    assert_eq!(
        LeaFirstArg::from_src(SrcEA::AbsoluteLong(AbsoluteLong(9))),
        Some(LeaFirstArg::AbsoluteLong(AbsoluteLong(9)))
    );
    assert_eq!(LeaFirstArg::from_src(postinc), None);
    assert_eq!(LeaFirstArg::from_src(SrcEA::Dn(d(0))), None);
    assert_eq!(LeaFirstArg::from_src(SrcEA::An(a(0))), None);
    assert_eq!(
        LeaFirstArg::from_src(SrcEA::ImmediateData(ImmediateData { size: IntSize::W, value: 1 })),
        None
    );
    assert_eq!(
        LeaFirstArg::AbsoluteShort(AbsoluteShort(7)).to_src(),
        SrcEA::AbsoluteShort(AbsoluteShort(7))
    );
}

#[test]
fn instruction_words() {
    let cases: Vec<(&str, Vec<u8>)> = vec![
        (" LEA (A0),A1", vec![0x43, 0xD0]),
        (" LEA $1000.W,A7", vec![0x4F, 0xF8, 0x10, 0x00]),
        (" LEA (8,A2),A0", vec![0x41, 0xEA, 0x00, 0x08]),
        (" LEA $12345678.L,A3", vec![0x47, 0xF9, 0x12, 0x34, 0x56, 0x78]),
        (" LINK A6,#-8", vec![0x4E, 0x56, 0xFF, 0xF8]),
        (" LINK A0,#$100", vec![0x4E, 0x50, 0x01, 0x00]),
        (" UNLK A6", vec![0x4E, 0x5E]),
        (" MOVE.W D0,D1", vec![0x32, 0x00]),
        (" MOVE D0,D1", vec![0x32, 0x00]),
        (" MOVE.B (A0)+,-(A1)", vec![0x13, 0x18]),
        (" MOVE.L #$12345678,D0", vec![0x20, 0x3C, 0x12, 0x34, 0x56, 0x78]),
        (" MOVE.W (2,A0),$10.W", vec![0x31, 0xE8, 0x00, 0x02, 0x00, 0x10]),
        (" MOVE.L D1,A2", vec![0x24, 0x41]),
        (" MOVE.B D0,A0", vec![0x10, 0x40]),
        (" MOVE D0,#1", vec![0x39, 0xC0, 0x00, 0x01]),
        (" MOVEA.L #$1000,A0", vec![0x20, 0x7C, 0x00, 0x00, 0x10, 0x00]),
        (" MOVEA.W D1,A2", vec![0x34, 0x41]),
        (" MOVEA D1,A2", vec![0x34, 0x41]),
        (" PEA (A5)", vec![0x48, 0x55]),
        (" CLR.B (A0)", vec![0x42, 0x10]),
        (" CLR.W D1", vec![0x42, 0x41]),
        (" CLR D1", vec![0x42, 0x41]),
        (" CLR.L D7", vec![0x42, 0x87]),
        (" CLR A0", vec![0x42, 0x48]),
        (" CMP.B D1,D0", vec![0xB0, 0x01]),
        (" CMP.W D1,D0", vec![0xB0, 0x41]),
        (" CMP.L (A0),D3", vec![0xB6, 0x90]),
        (" CMPI.B #$41,(A0)", vec![0x0C, 0x10, 0x00, 0x41]),
        (" CMPI.W #-1,$2000.W", vec![0x0C, 0x78, 0xFF, 0xFF, 0x20, 0x00]),
        (" CMPI.L #1,D0", vec![0x0C, 0x80, 0x00, 0x00, 0x00, 0x01]),
        (" CMPI #1,A1", vec![0x0C, 0x49, 0x00, 0x01]),
        (" ADDA.W #2,A0", vec![0xD0, 0xFC, 0x00, 0x02]),
        (" ADDA.L D1,A3", vec![0xD7, 0xC1]),
        (" ADDA D1,A3", vec![0xD6, 0xC1]),
        (" ADDA.B #1,A0", vec![0xD0, 0xFC, 0x00, 0x01]),
        (" SUBA.W (A1),A1", vec![0x92, 0xD1]),
        (" SUBA.L D1,A3", vec![0x97, 0xC1]),
        (" SUBA.B D0,A0", vec![0x90, 0xC0]),
        (" JMP (A0)", vec![0x4E, 0xD0]),
        (" JMP $1000", vec![0x4E, 0xF9, 0x00, 0x00, 0x10, 0x00]),
        (" NOP", vec![0x4E, 0x71]),
        (" RTS", vec![0x4E, 0x75]),
        (" RTE", vec![0x4E, 0x73]),
        (" ANDI #$F8FF,SR", vec![0x02, 0x7C, 0xF8, 0xFF]),
        (" MOVE D0,SR", vec![0x46, 0xC0]),
        (" MOVE #$2700,SR", vec![0x46, 0xFC, 0x27, 0x00]),
        (" MOVE A0,USP", vec![0x4E, 0x60]),
        (" MOVE USP,A1", vec![0x4E, 0x69]),
        (" BKPT #3", vec![0x48, 0x4B]),
        (" BKPT #9", vec![0x48, 0x49]),
        (" BKPT", vec![0x48, 0x48]),
        (" TRAP #15", vec![0x4E, 0x4F]),
        (" TRAP #16", vec![0x4E, 0x40]),
    ];
    for (text, code) in cases {
        assert_eq!(assembled(text), code, "{text}");
    }
}

#[test]
fn condition_codes() {
    let cases = [
        ("BHI", 0x62),
        ("BLS", 0x63),
        ("BCC", 0x64),
        ("BCS", 0x65),
        ("BNE", 0x66),
        ("BEQ", 0x67),
        ("BVC", 0x68),
        ("BVS", 0x69),
        ("BPL", 0x6A),
        ("BMI", 0x6B),
        ("BGE", 0x6C),
        ("BLT", 0x6D),
        ("BGT", 0x6E),
        ("BLE", 0x6F),
        ("BSR", 0x61),
    ];
    for (name, first) in cases {
        assert_eq!(assembled(&format!("top: NOP\n {name} top")), vec![0x4E, 0x71, first, 0x00, 0xFF, 0xFC]);
    }
    assert_eq!(Condition::HI.code_bits(), 0b0010);
    assert_eq!(Condition::LE.code_bits(), 0b1111);
}

#[test]
fn displacement_is_taken_from_behind_the_instruction_word() {
    assert_eq!(to_displacement(4, 0), 2);
    assert_eq!(to_displacement(2, 0), 0);
    assert_eq!(to_displacement(0, 2), -4);
    assert_eq!(to_displacement(0x1_0000, 0), -2);
    assert_eq!(to_displacement(0x8001, 0), i16::MAX);
    assert_eq!(to_displacement(0x8002, 0), i16::MIN);
    assert_eq!(to_displacement(0, u32::MAX), -1);
    assert_eq!(to_displacement(i32::MIN, 0), -2);
    // at an odd address the branch is placed at the next even one
    assert_eq!(assembled(" DC.B 1\n BEQ 6"), vec![1, 0x67, 0x00, 0x00, 0x02]);
}

#[test]
fn dry_run_leaves_the_target_of_a_branch_unread() {
    let table = SymbolTable::new();
    let target = Expression::Symbol("later".to_string(), Span { start: 5, end: 10 });
    let op = Operation {
        mnemonic: Mnemonic::Bcc(Condition::EQ),
        size: None,
        operands: vec![Operand::AbsoluteLong(target)],
    };
    assert_eq!(resolve_operation(&op, 0x100, &table, 0, true), Ok(Instruction::Bcc(Condition::EQ, 0)));
    assert_eq!(code_for_instr(&op, 0x100, &table, 0, true), Ok(vec![0x67, 0x00, 0x00, 0x00]));
    assert!(matches!(
        code_for_instr(&op, 0x100, &table, 0, false),
        Err(CodeError::UndefinedSymbols(_))
    ));
    assert_eq!(
        code_for_instr(&op, 0x100, &NonFailingMap(&table), 0, false),
        Ok(vec![0x67, 0x00, 0xFE, 0xFE])
    );
}

#[test]
fn sizes_are_the_same_in_both_passes() {
    let mut table = SymbolTable::new();
    let texts = [
        " MOVE.L #later,(later,A0)",
        " BNE later",
        " BSR later",
        " DC.B later,'abc',later",
        " DC.L later",
        " CMPI.W #later,later.W",
        " JMP later",
        " LEA later,A0",
        " NOP",
    ];
    let mut statements = Vec::new();
    for text in texts {
        statements.extend(ASMParser::parse(text).unwrap());
    }
    let first: Vec<(Option<u32>, usize)> = statements
        .iter()
        .map(|s| {
            let e = code_for_statement(s, 0x1001, &NonFailingMap(&table), 0, true).unwrap();
            (e.start_addr, e.code.len())
        })
        .collect();
    assert!(table.insert("later".to_string(), 0x12345678));
    let second: Vec<(Option<u32>, usize)> = statements
        .iter()
        .map(|s| {
            let e = code_for_statement(s, 0x1001, &table, 0, false).unwrap();
            (e.start_addr, e.code.len())
        })
        .collect();
    assert_eq!(first, second);
    assert_eq!(
        first,
        vec![
            (Some(0x1002), 8),
            (Some(0x1002), 4),
            (Some(0x1002), 4),
            (None, 5),
            (Some(0x1004), 4),
            (Some(0x1002), 6),
            (Some(0x1002), 6),
            (Some(0x1002), 6),
            (Some(0x1002), 2),
        ]
    );
}

#[test]
fn statement_code_of_directives() {
    let table = SymbolTable::new();
    let stmt = |body| Statement { label: None, body, span: Span { start: 0, end: 0 } };
    let org = stmt(Body::Directive(Directive::Org(Expression::Literal(-2))));
    let e = code_for_statement(&org, 5, &table, 0, false).unwrap();
    assert_eq!((e.start_addr, e.value, e.code.len()), (Some(0xFFFF_FFFE), None, 0));
    let equ = stmt(Body::Directive(Directive::Equ(Expression::Literal(0x42))));
    let e = code_for_statement(&equ, 5, &table, 0, true).unwrap();
    assert_eq!((e.start_addr, e.value, e.code.len()), (None, Some(0x42), 0));
    let inclusion = stmt(Body::Directive(Directive::Include(b"x.s".to_vec())));
    let e = code_for_statement(&inclusion, 5, &table, 0, true).unwrap();
    assert_eq!((e.start_addr, e.value, e.code.len()), (None, None, 0));
    let empty = stmt(Body::Empty);
    let e = code_for_statement(&empty, 5, &table, 0, true).unwrap();
    assert_eq!((e.start_addr, e.value, e.code.len()), (None, None, 0));
    assert!(e.label.is_none());
    let nop = stmt(Body::Instruction(Operation {
        mnemonic: Mnemonic::NOP,
        size: None,
        operands: vec![],
    }));
    assert_eq!(
        code_for_statement(&nop, u32::MAX, &table, 0, false).unwrap_err(),
        CodeError::AddressOverflow
    );
    let e = code_for_statement(&nop, u32::MAX - 1, &table, 0, false).unwrap();
    assert_eq!((e.start_addr, e.code.clone()), (None, vec![0x4E, 0x71]));
}

#[test]
fn alignment() {
    assert_eq!(IntSize::B.aligned(7), None);
    assert_eq!(IntSize::W.aligned(6), None);
    assert_eq!(IntSize::W.aligned(7), Some(8));
    assert_eq!(IntSize::L.aligned(8), None);
    assert_eq!(IntSize::L.aligned(5), Some(8));
    assert_eq!(IntSize::L.aligned(6), Some(8));
    assert_eq!(IntSize::L.aligned(7), Some(8));
    assert_eq!(IntSize::L.aligned(0xFFFF_FFF9), Some(0xFFFF_FFFC));
    assert!(IntSize::L.can_align(0xFFFF_FFFC));
    assert!(!IntSize::L.can_align(0xFFFF_FFFD));
    assert!(!IntSize::W.can_align(0xFFFF_FFFF));
    assert!(IntSize::B.can_align(0xFFFF_FFFF));
    assert_eq!(IntSize::default(), IntSize::W);
    assert_eq!((IntSize::B.width(), IntSize::W.width(), IntSize::L.width()), (1, 2, 4));
    assert_eq!(WordSize::L.int_size(), IntSize::L);
    assert_eq!(SmallSize::B.int_size(), IntSize::B);
}

#[test]
fn data_directives() {
    assert_eq!(assembled(" DC.B 1,2,$FF"), vec![1, 2, 0xFF]);
    assert_eq!(assembled(" DC.W 1,$1234"), vec![0, 1, 0x12, 0x34]);
    assert_eq!(assembled(" DC 258"), vec![1, 2]);
    assert_eq!(assembled(" DC.L 1,-1"), vec![0, 0, 0, 1, 0xFF, 0xFF, 0xFF, 0xFF]);
    assert_eq!(assembled(" DC.W 'AB'"), vec![0x41, 0x42]);
    assert_eq!(assembled(" DC.B 1\n DC.L 2"), vec![1, 0, 0, 0, 2]);
}

#[test]
fn operations_reject_what_they_cannot_take() {
    assert_eq!(fails(" NOP D0"), CodeError::InvalidOperands);
    assert_eq!(fails(" RTS #1"), CodeError::InvalidOperands);
    assert_eq!(fails(" MOVE D0"), CodeError::InvalidOperands);
    assert_eq!(fails(" MOVE D0,D1,D2"), CodeError::InvalidOperands);
    assert_eq!(fails(" MOVE SR,D0"), CodeError::InvalidOperands);
    assert_eq!(fails(" MOVE D0,USP"), CodeError::InvalidOperands);
    assert_eq!(fails(" LEA D0,A0"), CodeError::InvalidOperands);
    assert_eq!(fails(" LEA (A0)+,A0"), CodeError::InvalidOperands);
    assert_eq!(fails(" LEA #1,A0"), CodeError::InvalidOperands);
    assert_eq!(fails(" LEA (A0),D0"), CodeError::InvalidOperands);
    assert_eq!(fails(" LINK D0,#1"), CodeError::InvalidOperands);
    assert_eq!(fails(" LINK A0,1"), CodeError::InvalidOperands);
    assert_eq!(fails(" UNLK D0"), CodeError::InvalidOperands);
    assert_eq!(fails(" CLR SR"), CodeError::InvalidOperands);
    assert_eq!(fails(" CMP D0,A0"), CodeError::InvalidOperands);
    assert_eq!(fails(" CMPI #1,USP"), CodeError::InvalidOperands);
    assert_eq!(fails(" CMPI D0,D1"), CodeError::InvalidOperands);
    assert_eq!(fails(" ADDA D0,D1"), CodeError::InvalidOperands);
    assert_eq!(fails(" SUBA D0,(A1)"), CodeError::InvalidOperands);
    assert_eq!(fails(" BEQ D0"), CodeError::InvalidOperands);
    assert_eq!(fails(" BSR #1"), CodeError::InvalidOperands);
    assert_eq!(fails(" ANDI #1,D0"), CodeError::InvalidOperands);
    assert_eq!(fails(" TRAP 1"), CodeError::InvalidOperands);
    assert_eq!(fails(" BKPT D0"), CodeError::InvalidOperands);
    assert_eq!(fails(" PEA SR"), CodeError::InvalidOperands);
    assert_eq!(fails(" JMP USP"), CodeError::InvalidOperands);
    assert_eq!(fails(" MOVEA.B D0,A0"), CodeError::InvalidSize);
}

#[test]
fn instructions_encode_by_themselves() {
    assert_eq!(Instruction::NOP.encode(), vec![0x4E, 0x71]);
    assert_eq!(Instruction::LINK(a(6), 0xFFF8).encode(), vec![0x4E, 0x56, 0xFF, 0xF8]);
    assert_eq!(Instruction::Bcc(Condition::NE, -4).encode(), vec![0x66, 0x00, 0xFF, 0xFC]);
    assert_eq!(Instruction::BSR(2).encode(), vec![0x61, 0x00, 0x00, 0x02]);
    assert_eq!(
        Instruction::MOVE(
            IntSize::L,
            SrcEA::ImmediateData(ImmediateData { size: IntSize::L, value: 0x12345678 }),
            SrcEA::Dn(d(0))
        )
        .encode(),
        vec![0x20, 0x3C, 0x12, 0x34, 0x56, 0x78]
    );
    assert_eq!(
        Instruction::MOVEA(WordSize::L, SrcEA::Dn(d(1)), a(2)).encode(),
        vec![0x24, 0x41]
    );
    assert_eq!(
        Instruction::CMPI(
            ImmediateData { size: IntSize::B, value: 0x141 },
            SrcEA::IndirectDisp(IndirectDisp(4, a(1)))
        )
        .encode(),
        vec![0x0C, 0x29, 0x00, 0x41, 0x00, 0x04]
    );
    assert_eq!(Instruction::ADDA(IntSize::B, SrcEA::Dn(d(1)), a(3)).encode(), vec![0xD6, 0xC1]);
    assert_eq!(Instruction::SUBA(IntSize::L, SrcEA::Dn(d(1)), a(3)).encode(), vec![0x97, 0xC1]);
    assert_eq!(Instruction::TRAP(0xFFFF_FFFF).opcode_bits(), 0x4E4F);
    assert_eq!(Instruction::BKPT(0xFFFF_FFFF).opcode_bits(), 0x484F);
}
