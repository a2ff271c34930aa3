//! Effective addresses whose expressions have been evaluated, and the mode,
//! register and extension fields that each contributes to an instruction.

use vstd::prelude::*;
use crate::bytes::{be16, be32, push_be16, push_be32};
use crate::size::IntSize;

verus! {

/// An address register, `A0` to `A7`.
#[derive(Debug, Clone, Copy, PartialEq, Eq)]
pub struct An(u8);

/// A data register, `D0` to `D7`.
#[derive(Debug, Clone, Copy, PartialEq, Eq)]
pub struct Dn(u8);

impl An {
    #[verifier::type_invariant]
    spec fn in_range(self) -> bool {
        self.0 < 8
    }

    /// The register's number.
    pub closed spec fn number(self) -> u8 {
        self.0
    }

    /// The address register with the number `n`.
    pub closed spec fn of(n: u8) -> An {
        An(n)
    }

    /// A register is the one with its number.
    pub broadcast proof fn lemma_of_number(n: u8)
        ensures
            (#[trigger] An::of(n)).number() == n,
    {
    }

    /// The register with the given number, where there is one.
    pub fn new(n: u8) -> (res: Option<An>)
        ensures
            res is Some <==> n < 8,
            res matches Some(r) ==> r.number() == n && r == An::of(n),
    {
        if n < 8 {
            Some(An(n))
        } else {
            None
        }
    }

    /// The register's number.
    pub fn reg(&self) -> (n: u8)
        ensures
            n == self.number(),
            n < 8,
    {
        proof {
            use_type_invariant(self);
        }
        self.0
    }
}

impl Dn {
    #[verifier::type_invariant]
    spec fn in_range(self) -> bool {
        self.0 < 8
    }

    /// The register's number.
    pub closed spec fn number(self) -> u8 {
        self.0
    }

    /// The data register with the number `n`.
    pub closed spec fn of(n: u8) -> Dn {
        Dn(n)
    }

    /// A register is the one with its number.
    pub broadcast proof fn lemma_of_number(n: u8)
        ensures
            (#[trigger] Dn::of(n)).number() == n,
    {
    }

    /// The register with the given number, where there is one.
    pub fn new(n: u8) -> (res: Option<Dn>)
        ensures
            res is Some <==> n < 8,
            res matches Some(r) ==> r.number() == n && r == Dn::of(n),
    {
        if n < 8 {
            Some(Dn(n))
        } else {
            None
        }
    }

    /// The register's number.
    pub fn reg(&self) -> (n: u8)
        ensures
            n == self.number(),
            n < 8,
    {
        proof {
            use_type_invariant(self);
        }
        self.0
    }
}

/// `(An)`
#[derive(Debug, Clone, Copy, PartialEq, Eq)]
pub struct Indirect(pub An);

/// `(An)+`
#[derive(Debug, Clone, Copy, PartialEq, Eq)]
pub struct IndirectPostInc(pub An);

/// `-(An)`
#[derive(Debug, Clone, Copy, PartialEq, Eq)]
pub struct IndirectPreDec(pub An);

/// `(d16,An)`
#[derive(Debug, Clone, Copy, PartialEq, Eq)]
pub struct IndirectDisp(pub u16, pub An);

/// `(address).W`
#[derive(Debug, Clone, Copy, PartialEq, Eq)]
pub struct AbsoluteShort(pub u16);

/// `(address).L`
#[derive(Debug, Clone, Copy, PartialEq, Eq)]
pub struct AbsoluteLong(pub u32);

/// `#<data>`: a value, and the size of the operation that reads it.
#[derive(Debug, Clone, Copy, PartialEq, Eq)]
pub struct ImmediateData {
    pub size: IntSize,
    pub value: i32,
}

impl ImmediateData {
    /// The extension bytes that carry the value: a byte takes the low half
    /// of a word whose high half is zero.
    pub open spec fn bytes(self) -> Seq<u8> {
        match self.size {
            IntSize::B => seq![0x00u8, (self.value & 0xFF) as u8],
            IntSize::W => be16(self.value as u16),
            IntSize::L => be32(self.value as u32),
        }
    }

    /// The number of extension bytes.
    pub open spec fn len(self) -> nat {
        match self.size {
            IntSize::B => 2,
            IntSize::W => 2,
            IntSize::L => 4,
        }
    }

    /// Appends the extension bytes to `out`.
    pub fn push_bytes(&self, out: &mut Vec<u8>)
        ensures
            final(out)@ == old(out)@ + self.bytes(),
    {
        match self.size {
            IntSize::B => {
                out.push(0x00u8);
                out.push(#[verifier::truncate] ((self.value & 0xFF) as u8));
                assert(out@ =~= old(out)@ + self.bytes());
            },
            IntSize::W => push_be16(out, #[verifier::truncate] (self.value as u16)),
            IntSize::L => push_be32(out, #[verifier::truncate] (self.value as u32)),
        }
    }
}

/// An effective address that can be read from.
#[derive(Debug, Clone, Copy, PartialEq, Eq)]
pub enum SrcEA {
    Dn(Dn),
    An(An),
    Indirect(Indirect),
    IndirectDisp(IndirectDisp),
    IndirectPostInc(IndirectPostInc),
    IndirectPreDec(IndirectPreDec),
    ImmediateData(ImmediateData),
    AbsoluteLong(AbsoluteLong),
    AbsoluteShort(AbsoluteShort),
}

/// An effective address that names a place in memory without changing a
/// register.
#[derive(Debug, Clone, Copy, PartialEq, Eq)]
pub enum LeaFirstArg {
    Indirect(Indirect),
    IndirectDisp(IndirectDisp),
    AbsoluteLong(AbsoluteLong),
    AbsoluteShort(AbsoluteShort),
}

impl SrcEA {
    /// The three mode bits of the effective-address field.
    pub open spec fn mode(self) -> u8 {
        match self {
            SrcEA::Dn(_) => 0b000,
            SrcEA::An(_) => 0b001,
            SrcEA::Indirect(_) => 0b010,
            SrcEA::IndirectPostInc(_) => 0b011,
            SrcEA::IndirectPreDec(_) => 0b100,
            SrcEA::IndirectDisp(_) => 0b101,
            SrcEA::AbsoluteShort(_) => 0b111,
            SrcEA::AbsoluteLong(_) => 0b111,
            SrcEA::ImmediateData(_) => 0b111,
        }
    }

    /// The three register bits of the effective-address field.
    pub open spec fn register(self) -> u8 {
        match self {
            SrcEA::Dn(r) => r.number(),
            SrcEA::An(r) => r.number(),
            SrcEA::Indirect(a) => a.0.number(),
            SrcEA::IndirectPostInc(a) => a.0.number(),
            SrcEA::IndirectPreDec(a) => a.0.number(),
            SrcEA::IndirectDisp(a) => a.1.number(),
            SrcEA::AbsoluteShort(_) => 0b000,
            SrcEA::AbsoluteLong(_) => 0b001,
            SrcEA::ImmediateData(_) => 0b100,
        }
    }

    /// The extension bytes that follow the instruction word.
    pub open spec fn extension(self) -> Seq<u8> {
        match self {
            SrcEA::IndirectDisp(a) => be16(a.0),
            SrcEA::AbsoluteShort(a) => be16(a.0),
            SrcEA::AbsoluteLong(a) => be32(a.0),
            SrcEA::ImmediateData(d) => d.bytes(),
            _ => Seq::empty(),
        }
    }

    /// The number of extension bytes.
    pub open spec fn extension_len(self) -> nat {
        match self {
            SrcEA::IndirectDisp(_) => 2,
            SrcEA::AbsoluteShort(_) => 2,
            SrcEA::AbsoluteLong(_) => 4,
            SrcEA::ImmediateData(d) => d.len(),
            _ => 0,
        }
    }

    /// The extension has two bytes or four, or none.
    pub proof fn lemma_extension_len(self)
        ensures
            self.extension().len() == self.extension_len(),
    {
    }

    /// The six bits `mmm rrr` of the effective-address field.
    pub open spec fn field(self) -> u16 {
        ((self.mode() as u16) << 3) | (self.register() as u16)
    }

    /// The three mode bits of the effective-address field.
    pub fn mode_bits(&self) -> (m: u8)
        ensures
            m == self.mode(),
            m < 8,
    {
        match self {
            SrcEA::Dn(_) => 0b000,
            SrcEA::An(_) => 0b001,
            SrcEA::Indirect(_) => 0b010,
            SrcEA::IndirectPostInc(_) => 0b011,
            SrcEA::IndirectPreDec(_) => 0b100,
            SrcEA::IndirectDisp(_) => 0b101,
            SrcEA::AbsoluteShort(_) => 0b111,
            SrcEA::AbsoluteLong(_) => 0b111,
            SrcEA::ImmediateData(_) => 0b111,
        }
    }

    /// The three register bits of the effective-address field.
    pub fn register_bits(&self) -> (r: u8)
        ensures
            r == self.register(),
            r < 8,
    {
        match self {
            SrcEA::Dn(r) => r.reg(),
            SrcEA::An(r) => r.reg(),
            SrcEA::Indirect(a) => a.0.reg(),
            SrcEA::IndirectPostInc(a) => a.0.reg(),
            SrcEA::IndirectPreDec(a) => a.0.reg(),
            SrcEA::IndirectDisp(a) => a.1.reg(),
            SrcEA::AbsoluteShort(_) => 0b000,
            SrcEA::AbsoluteLong(_) => 0b001,
            SrcEA::ImmediateData(_) => 0b100,
        }
    }

    /// The six bits `mmm rrr` of the effective-address field.
    pub fn field_bits(&self) -> (f: u16)
        ensures
            f == self.field(),
    {
        ((self.mode_bits() as u16) << 3) | (self.register_bits() as u16)
    }

    /// Appends the extension bytes to `out`.
    pub fn push_extension(&self, out: &mut Vec<u8>)
        ensures
            final(out)@ == old(out)@ + self.extension(),
    {
        match self {
            SrcEA::IndirectDisp(a) => push_be16(out, a.0),
            SrcEA::AbsoluteShort(a) => push_be16(out, a.0),
            SrcEA::AbsoluteLong(a) => push_be32(out, a.0),
            SrcEA::ImmediateData(d) => d.push_bytes(out),
            _ => {
                assert(out@ =~= old(out)@ + self.extension());
            },
        }
    }
}

impl LeaFirstArg {
    /// The same address, seen as one that can be read from.
    pub open spec fn as_src(self) -> SrcEA {
        match self {
            LeaFirstArg::Indirect(a) => SrcEA::Indirect(a),
            LeaFirstArg::IndirectDisp(a) => SrcEA::IndirectDisp(a),
            LeaFirstArg::AbsoluteLong(a) => SrcEA::AbsoluteLong(a),
            LeaFirstArg::AbsoluteShort(a) => SrcEA::AbsoluteShort(a),
        }
    }

    pub fn to_src(&self) -> (s: SrcEA)
        ensures
            s == self.as_src(),
    {
        match self {
            LeaFirstArg::Indirect(a) => SrcEA::Indirect(*a),
            LeaFirstArg::IndirectDisp(a) => SrcEA::IndirectDisp(*a),
            LeaFirstArg::AbsoluteLong(a) => SrcEA::AbsoluteLong(*a),
            LeaFirstArg::AbsoluteShort(a) => SrcEA::AbsoluteShort(*a),
        }
    }

    /// The address that `src` names, where it changes no register.
    pub open spec fn of_src(src: SrcEA) -> Option<LeaFirstArg> {
        match src {
            SrcEA::Indirect(a) => Some(LeaFirstArg::Indirect(a)),
            SrcEA::IndirectDisp(a) => Some(LeaFirstArg::IndirectDisp(a)),
            SrcEA::AbsoluteLong(a) => Some(LeaFirstArg::AbsoluteLong(a)),
            SrcEA::AbsoluteShort(a) => Some(LeaFirstArg::AbsoluteShort(a)),
            _ => None,
        }
    }

    pub fn from_src(src: SrcEA) -> (res: Option<LeaFirstArg>)
        ensures
            res == LeaFirstArg::of_src(src),
    {
        match src {
            SrcEA::Indirect(a) => Some(LeaFirstArg::Indirect(a)),
            SrcEA::IndirectDisp(a) => Some(LeaFirstArg::IndirectDisp(a)),
            SrcEA::AbsoluteLong(a) => Some(LeaFirstArg::AbsoluteLong(a)),
            SrcEA::AbsoluteShort(a) => Some(LeaFirstArg::AbsoluteShort(a)),
            _ => None,
        }
    }
}

} // verus!
