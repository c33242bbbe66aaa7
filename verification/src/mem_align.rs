use vstd::prelude::*;

verus! {

/// Alignment of a payload stored in an arena, from one byte up to sixteen.
#[derive(Clone, Copy, Debug, PartialEq, Eq, Structural)]
pub enum MemAlign {
    Bits8,
    Bits16,
    Bits32,
    Bits64,
    Bits128,
}

/// The smallest multiple of `align` that is at least `offset` (for byte alignment, `offset`
/// itself).
pub open spec fn align_up(offset: int, align: int) -> int {
    if align == 1 {
        offset
    } else {
        ((offset + align - 1) / align) * align
    }
}

/// The alignment that `MemAlign::from_align` picks for a requested alignment.
pub open spec fn spec_from_align(align: int) -> Option<MemAlign> {
    if align == 1 {
        Some(MemAlign::Bits8)
    } else if align == 2 {
        Some(MemAlign::Bits16)
    } else if 3 <= align <= 4 {
        Some(MemAlign::Bits32)
    } else if 5 <= align <= 8 {
        Some(MemAlign::Bits64)
    } else if 9 <= align <= 16 {
        Some(MemAlign::Bits128)
    } else {
        None
    }
}

impl MemAlign {
    /// The alignment in bytes.
    pub open spec fn spec_bytes(self) -> nat {
        match self {
            MemAlign::Bits8 => 1,
            MemAlign::Bits16 => 2,
            MemAlign::Bits32 => 4,
            MemAlign::Bits64 => 8,
            MemAlign::Bits128 => 16,
        }
    }

    /// The alignment in bytes.
    pub fn bytes(&self) -> (r: usize)
        ensures
            r == self.spec_bytes(),
    {
        match self {
            MemAlign::Bits8 => 1,
            MemAlign::Bits16 => 2,
            MemAlign::Bits32 => 4,
            MemAlign::Bits64 => 8,
            MemAlign::Bits128 => 16,
        }
    }

    /// Rounds `offset` up to the next multiple of this alignment.
    pub fn align_offset(&self, offset: usize) -> (r: usize)
        requires
            offset + self.spec_bytes() - 1 <= usize::MAX,
        ensures
            r == align_up(offset as int, self.spec_bytes() as int),
            offset <= r < offset + self.spec_bytes(),
            (r as int) % (self.spec_bytes() as int) == 0,
    {
        let a = self.bytes();
        assert(1 <= a <= 16);
        let r = (offset + (a - 1)) & !(a - 1);
        proof {
            let o = offset;
            if a == 1 {
                assert(r == ((o + 0) as usize) & !0usize);
                assert(((o + 0) as usize) & !0usize == o) by (bit_vector);
            } else if a == 2 {
                assert(r == ((o + 1) as usize) & !1usize);
                assert(((o + 1) as usize) & !1usize == ((o + 1) / 2) * 2) by (bit_vector)
                    requires (o + 1) as usize == o + 1;
            } else if a == 4 {
                assert(r == ((o + 3) as usize) & !3usize);
                assert(((o + 3) as usize) & !3usize == ((o + 3) / 4) * 4) by (bit_vector)
                    requires (o + 3) as usize == o + 3;
            } else if a == 8 {
                assert(r == ((o + 7) as usize) & !7usize);
                assert(((o + 7) as usize) & !7usize == ((o + 7) / 8) * 8) by (bit_vector)
                    requires (o + 7) as usize == o + 7;
            } else {
                assert(r == ((o + 15) as usize) & !15usize);
                assert(((o + 15) as usize) & !15usize == ((o + 15) / 16) * 16) by (bit_vector)
                    requires (o + 15) as usize == o + 15;
            }
            lemma_align_up_bounds(offset as int, a as int);
        }
        r
    }

    /// Picks the arena alignment for a type whose alignment is `align` bytes.
    ///
    /// Alignments from 1 to 16 are rounded up to the next supported power of two; anything
    /// else has no arena alignment.
    pub fn from_align(align: usize) -> (r: Option<Self>)
        ensures
            r == spec_from_align(align as int),
    {
        if align == 1 {
            Some(MemAlign::Bits8)
        } else if align == 2 {
            Some(MemAlign::Bits16)
        } else if 3 <= align && align <= 4 {
            Some(MemAlign::Bits32)
        } else if 5 <= align && align <= 8 {
            Some(MemAlign::Bits64)
        } else if 9 <= align && align <= 16 {
            Some(MemAlign::Bits128)
        } else {
            None
        }
    }
}

/// Rounding up lands on a multiple of the alignment, no further than `align - 1` away.
pub proof fn lemma_align_up_bounds(offset: int, align: int)
    requires
        offset >= 0,
        align > 0,
    ensures
        offset <= align_up(offset, align) < offset + align,
        align_up(offset, align) % align == 0,
{
    let q = (offset + align - 1) / align;
    let r = (offset + align - 1) % align;
    vstd::arithmetic::div_mod::lemma_fundamental_div_mod(offset + align - 1, align);
    vstd::arithmetic::mul::lemma_mul_is_commutative(q, align);
    vstd::arithmetic::div_mod::lemma_mod_multiples_basic(q, align);
    assert(0 <= r < align);
}

} // verus!
