//! Operand sizes and the alignment they demand of the program counter.

use vstd::prelude::*;

verus! {

/// The size suffix of an instruction or a data directive.
#[derive(Debug, Clone, Copy, PartialEq, Eq, Structural)]
pub enum IntSize {
    B,
    W,
    L,
}

/// A size that is either a word or a long word.
#[derive(Debug, Clone, Copy, PartialEq, Eq, Structural)]
pub enum WordSize {
    W,
    L,
}

/// A size that is either a byte or a word.
#[derive(Debug, Clone, Copy, PartialEq, Eq, Structural)]
pub enum SmallSize {
    B,
    W,
}

impl IntSize {
    /// The number of bytes that a value of this size occupies.
    pub open spec fn bytes(self) -> nat {
        match self {
            IntSize::B => 1,
            IntSize::W => 2,
            IntSize::L => 4,
        }
    }

    /// The address that `pc` must be moved to so that a value of this size
    /// can be placed, or `None` where `pc` is a multiple of the size already.
    pub open spec fn aligned_spec(self, pc: u32) -> Option<u32> {
        if pc as nat % self.bytes() == 0 {
            None
        } else {
            Some((pc - pc as nat % self.bytes() + self.bytes()) as u32)
        }
    }

    /// Whether the next multiple of the size at or above `pc` is an address.
    pub open spec fn alignable(self, pc: u32) -> bool {
        pc as nat % self.bytes() == 0 || pc - pc as nat % self.bytes() + self.bytes() <= u32::MAX
    }

    /// The address that the program counter is moved to is the next
    /// multiple of the size.
    pub proof fn lemma_aligned(self, pc: u32)
        requires
            self.alignable(pc),
        ensures
            match self.aligned_spec(pc) {
                Some(a) => a as nat % self.bytes() == 0 && pc < a < pc + self.bytes(),
                None => pc as nat % self.bytes() == 0,
            },
    {
        match self {
            IntSize::B => {
                assert(pc as nat % 1 == 0);
            },
            IntSize::W => {
                assert((pc - pc as nat % 2 + 2) % 2 == 0);
            },
            IntSize::L => {
                assert((pc - pc as nat % 4 + 4) % 4 == 0);
            },
        }
    }

    /// The number of bytes that a value of this size occupies.
    pub fn width(&self) -> (n: u32)
        ensures
            n == self.bytes(),
    {
        match self {
            IntSize::B => 1,
            IntSize::W => 2,
            IntSize::L => 4,
        }
    }

    /// Whether the next multiple of the size at or above `pc` is an address.
    pub fn can_align(&self, pc: u32) -> (ok: bool)
        ensures
            ok == self.alignable(pc),
    {
        let size: u32 = self.width();
        let m: u32 = pc % size;
        m == 0 || pc - m <= u32::MAX - size
    }

    /// The address that `pc` must be moved to so that a value of this size
    /// can be placed: the next multiple of the size, or `None` where `pc` is
    /// one already.
    pub fn aligned(&self, pc: u32) -> (res: Option<u32>)
        requires
            self.alignable(pc),
        ensures
            res == self.aligned_spec(pc),
            res matches Some(a) ==> a > pc && a - pc < self.bytes() && a as nat % self.bytes() == 0,
    {
        let size: u32 = self.width();
        let m: u32 = pc % size;
        if m == 0 {
            None
        } else {
            Some(pc - m + size)
        }
    }
}

impl Default for IntSize {
    /// A word: the size of an operation that is written without one.
    fn default() -> (res: Self)
        ensures
            res == IntSize::W,
    {
        IntSize::W
    }
}

impl WordSize {
    pub open spec fn as_int_size(self) -> IntSize {
        match self {
            WordSize::W => IntSize::W,
            WordSize::L => IntSize::L,
        }
    }

    pub fn int_size(&self) -> (s: IntSize)
        ensures
            s == self.as_int_size(),
    {
        match self {
            WordSize::W => IntSize::W,
            WordSize::L => IntSize::L,
        }
    }
}

impl SmallSize {
    pub open spec fn as_int_size(self) -> IntSize {
        match self {
            SmallSize::B => IntSize::B,
            SmallSize::W => IntSize::W,
        }
    }

    pub fn int_size(&self) -> (s: IntSize)
        ensures
            s == self.as_int_size(),
    {
        match self {
            SmallSize::B => IntSize::B,
            SmallSize::W => IntSize::W,
        }
    }
}

} // verus!
