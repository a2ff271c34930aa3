//! Instructions whose operands have been evaluated, and their encoding as
//! big-endian bytes: one instruction word, then the extension words.

use vstd::prelude::*;
use crate::addressing::{An, Dn, ImmediateData, LeaFirstArg, SrcEA};
use crate::bytes::{be16, push_be16};
use crate::size::{IntSize, WordSize};

verus! {

/// The condition of a conditional branch.
#[derive(Debug, Clone, Copy, PartialEq, Eq, Structural)]
pub enum Condition {
    HI,
    LS,
    CC,
    CS,
    NE,
    EQ,
    VC,
    VS,
    PL,
    MI,
    GE,
    LT,
    GT,
    LE,
}

impl Condition {
    /// The four condition bits of the branch instruction word.
    pub open spec fn code(self) -> u16 {
        match self {
            Condition::HI => 0b0010,
            Condition::LS => 0b0011,
            Condition::CC => 0b0100,
            Condition::CS => 0b0101,
            Condition::NE => 0b0110,
            Condition::EQ => 0b0111,
            Condition::VC => 0b1000,
            Condition::VS => 0b1001,
            Condition::PL => 0b1010,
            Condition::MI => 0b1011,
            Condition::GE => 0b1100,
            Condition::LT => 0b1101,
            Condition::GT => 0b1110,
            Condition::LE => 0b1111,
        }
    }

    /// The four condition bits of the branch instruction word.
    pub fn code_bits(&self) -> (c: u16)
        ensures
            c == self.code(),
    {
        match self {
            Condition::HI => 0b0010,
            Condition::LS => 0b0011,
            Condition::CC => 0b0100,
            Condition::CS => 0b0101,
            Condition::NE => 0b0110,
            Condition::EQ => 0b0111,
            Condition::VC => 0b1000,
            Condition::VS => 0b1001,
            Condition::PL => 0b1010,
            Condition::MI => 0b1011,
            Condition::GE => 0b1100,
            Condition::LT => 0b1101,
            Condition::GT => 0b1110,
            Condition::LE => 0b1111,
        }
    }
}

/// The size field of `MOVE` and `MOVEA`.
pub open spec fn move_size(size: IntSize) -> u16 {
    match size {
        IntSize::B => 0b01,
        IntSize::W => 0b11,
        IntSize::L => 0b10,
    }
}

/// The size field of `CLR`, `CMP` and `CMPI`.
pub open spec fn plain_size(size: IntSize) -> u16 {
    match size {
        IntSize::B => 0b00,
        IntSize::W => 0b01,
        IntSize::L => 0b10,
    }
}

/// The operation mode of `ADDA` and `SUBA`: that of a long word, or else
/// that of a word.
pub open spec fn address_opmode(size: IntSize) -> u16 {
    match size {
        IntSize::L => 0b111,
        _ => 0b011,
    }
}

/// The size field of `MOVE` and `MOVEA`.
pub fn move_size_bits(size: IntSize) -> (s: u16)
    ensures
        s == move_size(size),
{
    match size {
        IntSize::B => 0b01,
        IntSize::W => 0b11,
        IntSize::L => 0b10,
    }
}

/// The size field of `CLR`, `CMP` and `CMPI`.
pub fn plain_size_bits(size: IntSize) -> (s: u16)
    ensures
        s == plain_size(size),
{
    match size {
        IntSize::B => 0b00,
        IntSize::W => 0b01,
        IntSize::L => 0b10,
    }
}

/// The operation mode of `ADDA` and `SUBA`.
pub fn address_opmode_bits(size: IntSize) -> (s: u16)
    ensures
        s == address_opmode(size),
{
    match size {
        IntSize::L => 0b111,
        _ => 0b011,
    }
}

/// An instruction with every operand evaluated.
#[allow(non_camel_case_types)]
#[derive(Debug, Clone, Copy, PartialEq, Eq)]
pub enum Instruction {
    LEA(LeaFirstArg, An),
    LINK(An, u16),
    MOVE(IntSize, SrcEA, SrcEA),
    MOVEA(WordSize, SrcEA, An),
    PEA(SrcEA),
    UNLK(An),
    CLR(IntSize, SrcEA),
    CMP(IntSize, SrcEA, Dn),
    CMPI(ImmediateData, SrcEA),
    ADDA(IntSize, SrcEA, An),
    SUBA(IntSize, SrcEA, An),
    Bcc(Condition, i16),
    BSR(i16),
    JMP(SrcEA),
    NOP,
    RTS,
    RTE,
    ANDI_to_SR(u16),
    MOVE_to_SR(SrcEA),
    MOVE_to_USP(An),
    MOVE_from_USP(An),
    BKPT(u32),
    TRAP(u32),
}

impl Instruction {
    /// The instruction word.
    pub open spec fn opcode(self) -> u16 {
        match self {
            Instruction::LEA(ea, an) => 0b0100_000_111_000_000u16 | ((an.number() as u16) << 9)
                | ea.as_src().field(),
            Instruction::LINK(an, _) => 0b0100_1110_0101_0_000u16 | (an.number() as u16),
            Instruction::MOVE(size, src, dst) => (move_size(size) << 12) | ((dst.register() as u16)
                << 9) | ((dst.mode() as u16) << 6) | src.field(),
            Instruction::MOVEA(size, src, an) => (move_size(size.as_int_size()) << 12) | ((
            an.number() as u16) << 9) | (0b001u16 << 6) | src.field(),
            Instruction::PEA(ea) => 0b0100_1000_01_000_000u16 | ea.field(),
            Instruction::UNLK(an) => 0b0100_1110_0101_1_000u16 | (an.number() as u16),
            Instruction::CLR(size, ea) => 0b0100_0010_00_000_000u16 | (plain_size(size) << 6)
                | ea.field(),
            Instruction::CMP(size, ea, dn) => 0b1011_000_000_000_000u16 | ((dn.number() as u16)
                << 9) | (plain_size(size) << 6) | ea.field(),
            Instruction::CMPI(data, ea) => 0b0000_1100_00_000_000u16 | (plain_size(data.size) << 6)
                | ea.field(),
            Instruction::ADDA(size, ea, an) => 0b1101_000_000_000_000u16 | ((an.number() as u16)
                << 9) | (address_opmode(size) << 6) | ea.field(),
            Instruction::SUBA(size, ea, an) => 0b1001_000_000_000_000u16 | ((an.number() as u16)
                << 9) | (address_opmode(size) << 6) | ea.field(),
            Instruction::Bcc(cc, _) => 0b0110_0000_0000_0000u16 | (cc.code() << 8),
            Instruction::BSR(_) => 0b0110_0001_0000_0000u16,
            Instruction::JMP(ea) => 0b0100_1110_11_000_000u16 | ea.field(),
            Instruction::NOP => 0b0100_1110_0111_0001u16,
            Instruction::RTS => 0b0100_1110_0111_0101u16,
            Instruction::RTE => 0b0100_1110_0111_0011u16,
            Instruction::ANDI_to_SR(_) => 0b0000_0010_0111_1100u16,
            Instruction::MOVE_to_SR(ea) => 0b0100_0110_11_000_000u16 | ea.field(),
            Instruction::MOVE_to_USP(an) => 0b0100_1110_0110_0_000u16 | (an.number() as u16),
            Instruction::MOVE_from_USP(an) => 0b0100_1110_0110_1_000u16 | (an.number() as u16),
            Instruction::BKPT(vector) => 0b0100_1000_0100_1_000u16 | ((vector & 0b111) as u16),
            Instruction::TRAP(vector) => 0b0100_1110_0100_0000u16 | ((vector & 0b1111) as u16),
        }
    }

    /// The extension words that follow the instruction word.
    pub open spec fn tail(self) -> Seq<u8> {
        match self {
            Instruction::LEA(ea, _) => ea.as_src().extension(),
            Instruction::LINK(_, displacement) => be16(displacement),
            Instruction::MOVE(_, src, dst) => src.extension() + dst.extension(),
            Instruction::MOVEA(_, src, _) => src.extension(),
            Instruction::PEA(ea) => ea.extension(),
            Instruction::CLR(_, ea) => ea.extension(),
            Instruction::CMP(_, ea, _) => ea.extension(),
            Instruction::CMPI(data, ea) => data.bytes() + ea.extension(),
            Instruction::ADDA(_, ea, _) => ea.extension(),
            Instruction::SUBA(_, ea, _) => ea.extension(),
            Instruction::Bcc(_, displacement) => be16(displacement as u16),
            Instruction::BSR(displacement) => be16(displacement as u16),
            Instruction::JMP(ea) => ea.extension(),
            Instruction::ANDI_to_SR(data) => be16(data),
            Instruction::MOVE_to_SR(ea) => ea.extension(),
            _ => Seq::empty(),
        }
    }

    /// The number of bytes of the instruction.
    pub open spec fn len(self) -> nat {
        2 + match self {
            Instruction::LEA(ea, _) => ea.as_src().extension_len(),
            Instruction::LINK(_, _) => 2,
            Instruction::MOVE(_, src, dst) => src.extension_len() + dst.extension_len(),
            Instruction::MOVEA(_, src, _) => src.extension_len(),
            Instruction::PEA(ea) => ea.extension_len(),
            Instruction::CLR(_, ea) => ea.extension_len(),
            Instruction::CMP(_, ea, _) => ea.extension_len(),
            Instruction::CMPI(data, ea) => data.len() + ea.extension_len(),
            Instruction::ADDA(_, ea, _) => ea.extension_len(),
            Instruction::SUBA(_, ea, _) => ea.extension_len(),
            Instruction::Bcc(_, _) => 2,
            Instruction::BSR(_) => 2,
            Instruction::JMP(ea) => ea.extension_len(),
            Instruction::ANDI_to_SR(_) => 2,
            Instruction::MOVE_to_SR(ea) => ea.extension_len(),
            _ => 0nat,
        }
    }

    /// An instruction is one word and its extension words.
    pub proof fn lemma_len(self)
        ensures
            self.bytes().len() == self.len(),
            self.len() % 2 == 0,
            2 <= self.len() <= 10,
    {
        match self {
            Instruction::LEA(ea, _) => ea.as_src().lemma_extension_len(),
            Instruction::MOVE(_, src, dst) => {
                src.lemma_extension_len();
                dst.lemma_extension_len();
            },
            Instruction::MOVEA(_, src, _) => src.lemma_extension_len(),
            Instruction::PEA(ea) => ea.lemma_extension_len(),
            Instruction::CLR(_, ea) => ea.lemma_extension_len(),
            Instruction::CMP(_, ea, _) => ea.lemma_extension_len(),
            Instruction::CMPI(_, ea) => ea.lemma_extension_len(),
            Instruction::ADDA(_, ea, _) => ea.lemma_extension_len(),
            Instruction::SUBA(_, ea, _) => ea.lemma_extension_len(),
            Instruction::JMP(ea) => ea.lemma_extension_len(),
            Instruction::MOVE_to_SR(ea) => ea.lemma_extension_len(),
            _ => {},
        }
    }

    /// The bytes of the instruction: the instruction word, most significant
    /// byte first, then the extension words.
    pub open spec fn bytes(self) -> Seq<u8> {
        be16(self.opcode()) + self.tail()
    }

    /// The instruction word.
    pub fn opcode_bits(&self) -> (w: u16)
        ensures
            w == self.opcode(),
    {
        match self {
            Instruction::LEA(ea, an) => 0b0100_000_111_000_000u16 | ((an.reg() as u16) << 9)
                | ea.to_src().field_bits(),
            Instruction::LINK(an, _) => 0b0100_1110_0101_0_000u16 | (an.reg() as u16),
            Instruction::MOVE(size, src, dst) => (move_size_bits(*size) << 12) | ((
            dst.register_bits() as u16) << 9) | ((dst.mode_bits() as u16) << 6)
                | src.field_bits(),
            Instruction::MOVEA(size, src, an) => (move_size_bits(size.int_size()) << 12) | ((
            an.reg() as u16) << 9) | (0b001u16 << 6) | src.field_bits(),
            Instruction::PEA(ea) => 0b0100_1000_01_000_000u16 | ea.field_bits(),
            Instruction::UNLK(an) => 0b0100_1110_0101_1_000u16 | (an.reg() as u16),
            Instruction::CLR(size, ea) => 0b0100_0010_00_000_000u16 | (plain_size_bits(*size) << 6)
                | ea.field_bits(),
            Instruction::CMP(size, ea, dn) => 0b1011_000_000_000_000u16 | ((dn.reg() as u16) << 9)
                | (plain_size_bits(*size) << 6) | ea.field_bits(),
            Instruction::CMPI(data, ea) => 0b0000_1100_00_000_000u16 | (plain_size_bits(data.size)
                << 6) | ea.field_bits(),
            Instruction::ADDA(size, ea, an) => 0b1101_000_000_000_000u16 | ((an.reg() as u16) << 9)
                | (address_opmode_bits(*size) << 6) | ea.field_bits(),
            Instruction::SUBA(size, ea, an) => 0b1001_000_000_000_000u16 | ((an.reg() as u16) << 9)
                | (address_opmode_bits(*size) << 6) | ea.field_bits(),
            Instruction::Bcc(cc, _) => 0b0110_0000_0000_0000u16 | (cc.code_bits() << 8),
            Instruction::BSR(_) => 0b0110_0001_0000_0000u16,
            Instruction::JMP(ea) => 0b0100_1110_11_000_000u16 | ea.field_bits(),
            Instruction::NOP => 0b0100_1110_0111_0001u16,
            Instruction::RTS => 0b0100_1110_0111_0101u16,
            Instruction::RTE => 0b0100_1110_0111_0011u16,
            Instruction::ANDI_to_SR(_) => 0b0000_0010_0111_1100u16,
            Instruction::MOVE_to_SR(ea) => 0b0100_0110_11_000_000u16 | ea.field_bits(),
            Instruction::MOVE_to_USP(an) => 0b0100_1110_0110_0_000u16 | (an.reg() as u16),
            Instruction::MOVE_from_USP(an) => 0b0100_1110_0110_1_000u16 | (an.reg() as u16),
            Instruction::BKPT(vector) => 0b0100_1000_0100_1_000u16 | (#[verifier::truncate] ((*vector
                & 0b111) as u16)),
            Instruction::TRAP(vector) => 0b0100_1110_0100_0000u16 | (#[verifier::truncate] ((*vector
                & 0b1111) as u16)),
        }
    }

    /// Appends the extension words to `out`.
    pub fn push_tail(&self, out: &mut Vec<u8>)
        ensures
            final(out)@ == old(out)@ + self.tail(),
    {
        match self {
            Instruction::LEA(ea, _) => ea.to_src().push_extension(out),
            Instruction::LINK(_, displacement) => push_be16(out, *displacement),
            Instruction::MOVE(_, src, dst) => {
                src.push_extension(out);
                dst.push_extension(out);
                assert(out@ =~= old(out)@ + self.tail());
            },
            Instruction::MOVEA(_, src, _) => src.push_extension(out),
            Instruction::PEA(ea) => ea.push_extension(out),
            Instruction::CLR(_, ea) => ea.push_extension(out),
            Instruction::CMP(_, ea, _) => ea.push_extension(out),
            Instruction::CMPI(data, ea) => {
                data.push_bytes(out);
                ea.push_extension(out);
                assert(out@ =~= old(out)@ + self.tail());
            },
            Instruction::ADDA(_, ea, _) => ea.push_extension(out),
            Instruction::SUBA(_, ea, _) => ea.push_extension(out),
            Instruction::Bcc(_, displacement) => push_be16(
                out,
                #[verifier::truncate] (*displacement as u16),
            ),
            Instruction::BSR(displacement) => push_be16(
                out,
                #[verifier::truncate] (*displacement as u16),
            ),
            Instruction::JMP(ea) => ea.push_extension(out),
            Instruction::ANDI_to_SR(data) => push_be16(out, *data),
            Instruction::MOVE_to_SR(ea) => ea.push_extension(out),
            _ => {
                assert(out@ =~= old(out)@ + self.tail());
            },
        }
    }

    /// The bytes of the instruction.
    pub fn encode(&self) -> (code: Vec<u8>)
        ensures
            code@ == self.bytes(),
    {
        let mut code: Vec<u8> = Vec::new();
        push_be16(&mut code, self.opcode_bits());
        self.push_tail(&mut code);
        assert(code@ =~= self.bytes());
        code
    }
}

} // verus!
