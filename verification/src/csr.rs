//! The fields of three machine-mode control and status registers.
//!
//! Each type holds a copy of its register. Reading the register into the
//! copy and writing the copy back are the business of whoever owns the
//! processor; what is here are the fields: which bits they are, how they are
//! read, and what setting one does to the others.

use vstd::prelude::*;

verus! {

/// Bit 3 of `mstatus`: machine interrupts are enabled.
pub const MSTATUS_MIE: usize = 0x8;

/// Bit 7 of `mstatus`: the `MIE` bit as it was before the last trap.
pub const MSTATUS_MPIE: usize = 0x80;

/// Bits 12..11 of `mstatus`: the privilege mode before the last trap.
pub const MSTATUS_MPP: usize = 0x1800;

/// Bit 3 of `mie`: software interrupts are enabled.
pub const MIE_MSIE: usize = 0x8;

/// Bit 7 of `mie`: timer interrupts are enabled.
pub const MIE_MTIE: usize = 0x80;

/// Bit 11 of `mie`: external interrupts are enabled.
pub const MIE_MEIE: usize = 0x800;

/// Bits 9..0 of `mcause`: the cause of the trap.
pub const MCAUSE_CODE: usize = 0x3ff;

/// Bit 31 of `mcause`: the trap was an interrupt.
pub const MCAUSE_INTERRUPT: usize = 0x8000_0000;

/// `bits` with the bits of `mask` set if `on`, cleared if not.
pub open spec fn with_bits(bits: usize, mask: usize, on: bool) -> usize {
    if on {
        bits | mask
    } else {
        bits & !mask
    }
}

/// Some bit of `mask` is set in `bits`.
pub open spec fn has_bits(bits: usize, mask: usize) -> bool {
    bits & mask != 0
}

/// `bits` after `set_mpp(mode)`.
pub open spec fn with_mpp(bits: usize, mode: usize) -> usize {
    (bits & !MSTATUS_MPP) | ((mode & 3) << 11)
}

/// The privilege mode that `bits` holds in its `MPP` field.
pub open spec fn mpp_of(bits: usize) -> usize {
    (bits >> 11) & 3
}

/// Setting one of the three flags leaves the flag as it was set and the two
/// others as they were. This holds for the flags of `mstatus` at bits 3 and
/// 7 and for those of `mie` at bits 3, 7 and 11.
pub proof fn lemma_flags_are_independent(bits: usize, on: bool)
    by (bit_vector)
    ensures
        has_bits(with_bits(bits, 0x8, on), 0x8) == on,
        has_bits(with_bits(bits, 0x8, on), 0x80) == has_bits(bits, 0x80),
        has_bits(with_bits(bits, 0x8, on), 0x800) == has_bits(bits, 0x800),
        has_bits(with_bits(bits, 0x80, on), 0x80) == on,
        has_bits(with_bits(bits, 0x80, on), 0x8) == has_bits(bits, 0x8),
        has_bits(with_bits(bits, 0x80, on), 0x800) == has_bits(bits, 0x800),
        has_bits(with_bits(bits, 0x800, on), 0x800) == on,
        has_bits(with_bits(bits, 0x800, on), 0x8) == has_bits(bits, 0x8),
        has_bits(with_bits(bits, 0x800, on), 0x80) == has_bits(bits, 0x80),
{
}

/// Setting a flag of `mstatus` leaves the privilege mode as it was.
pub proof fn lemma_flags_keep_mpp(bits: usize, on: bool)
    by (bit_vector)
    ensures
        mpp_of(with_bits(bits, 0x8, on)) == mpp_of(bits),
        mpp_of(with_bits(bits, 0x80, on)) == mpp_of(bits),
{
}

/// Setting the privilege mode stores the lower two bits of the mode, leaves
/// the two flags as they were, and changes no bit other than 11 and 12.
pub proof fn lemma_mpp(bits: usize, mode: usize)
    by (bit_vector)
    ensures
        mpp_of(with_mpp(bits, mode)) == mode & 3,
        has_bits(with_mpp(bits, mode), 0x8) == has_bits(bits, 0x8),
        has_bits(with_mpp(bits, mode), 0x80) == has_bits(bits, 0x80),
        with_mpp(bits, mode) & !0x1800usize == bits & !0x1800usize,
{
}

/// A copy of `mstatus`.
pub struct MStatus(usize);

impl View for MStatus {
    type V = usize;

    closed spec fn view(&self) -> usize {
        self.0
    }
}

impl MStatus {
    /// A copy that holds `bits`.
    pub fn new(bits: usize) -> (r: Self)
        ensures
            r@ == bits,
    {
        MStatus(bits)
    }

    /// The copy takes the value `bits`, as read from the register.
    pub fn reload(&mut self, bits: usize)
        ensures
            final(self)@ == bits,
    {
        self.0 = bits;
    }

    /// The value to write to the register.
    pub fn bits(&self) -> (bits: usize)
        ensures
            bits == self@,
    {
        self.0
    }

    /// Sets or clears `MIE`.
    pub fn set_mie(&mut self, v: bool)
        ensures
            final(self)@ == with_bits(old(self)@, MSTATUS_MIE, v),
    {
        if v {
            self.0 = self.0 | (1 << 3);
        } else {
            self.0 = self.0 & !(1 << 3);
        }
        proof {
            assert(1usize << 3 == 0x8usize) by (bit_vector);
        }
    }

    /// Whether `MIE` is set.
    pub fn mie(&self) -> (on: bool)
        ensures
            on == has_bits(self@, MSTATUS_MIE),
    {
        proof {
            assert(1usize << 3 == 0x8usize) by (bit_vector);
        }
        self.0 & (1 << 3) != 0
    }

    /// Sets or clears `MPIE`.
    pub fn set_mpie(&mut self, v: bool)
        ensures
            final(self)@ == with_bits(old(self)@, MSTATUS_MPIE, v),
    {
        if v {
            self.0 = self.0 | (1 << 7);
        } else {
            self.0 = self.0 & !(1 << 7);
        }
        proof {
            assert(1usize << 7 == 0x80usize) by (bit_vector);
        }
    }

    /// Whether `MPIE` is set.
    pub fn mpie(&self) -> (on: bool)
        ensures
            on == has_bits(self@, MSTATUS_MPIE),
    {
        proof {
            assert(1usize << 7 == 0x80usize) by (bit_vector);
        }
        self.0 & (1 << 7) != 0
    }

    /// Stores the lower two bits of `v` as the privilege mode.
    pub fn set_mpp(&mut self, v: usize)
        ensures
            final(self)@ == with_mpp(old(self)@, v),
    {
        let v = v & 0b11;
        proof {
            assert(0b11usize << 11 == 0x1800usize) by (bit_vector);
        }
        self.0 = (self.0 & !(0b11 << 11)) | (v << 11);
    }

    /// The privilege mode.
    pub fn mpp(&self) -> (mode: usize)
        ensures
            mode == mpp_of(self@),
    {
        (self.0 >> 11) & 0b11
    }
}

/// A copy of `mie`.
pub struct Mie(usize);

impl View for Mie {
    type V = usize;

    closed spec fn view(&self) -> usize {
        self.0
    }
}

impl Mie {
    /// A copy that holds `bits`.
    pub fn new(bits: usize) -> (r: Self)
        ensures
            r@ == bits,
    {
        Mie(bits)
    }

    /// The copy takes the value `bits`, as read from the register.
    pub fn reload(&mut self, bits: usize)
        ensures
            final(self)@ == bits,
    {
        self.0 = bits;
    }

    /// The value to write to the register.
    pub fn bits(&self) -> (bits: usize)
        ensures
            bits == self@,
    {
        self.0
    }

    /// Sets or clears `MSIE`.
    pub fn set_msie(&mut self, v: bool)
        ensures
            final(self)@ == with_bits(old(self)@, MIE_MSIE, v),
    {
        if v {
            self.0 = self.0 | (1 << 3);
        } else {
            self.0 = self.0 & !(1 << 3);
        }
        proof {
            assert(1usize << 3 == 0x8usize) by (bit_vector);
        }
    }

    /// Whether `MSIE` is set.
    pub fn msie(&self) -> (on: bool)
        ensures
            on == has_bits(self@, MIE_MSIE),
    {
        proof {
            assert(1usize << 3 == 0x8usize) by (bit_vector);
        }
        self.0 & (1 << 3) != 0
    }

    /// Sets or clears `MTIE`.
    pub fn set_mtie(&mut self, v: bool)
        ensures
            final(self)@ == with_bits(old(self)@, MIE_MTIE, v),
    {
        if v {
            self.0 = self.0 | (1 << 7);
        } else {
            self.0 = self.0 & !(1 << 7);
        }
        proof {
            assert(1usize << 7 == 0x80usize) by (bit_vector);
        }
    }

    /// Whether `MTIE` is set.
    pub fn mtie(&self) -> (on: bool)
        ensures
            on == has_bits(self@, MIE_MTIE),
    {
        proof {
            assert(1usize << 7 == 0x80usize) by (bit_vector);
        }
        self.0 & (1 << 7) != 0
    }

    /// Sets or clears `MEIE`.
    pub fn set_meie(&mut self, v: bool)
        ensures
            final(self)@ == with_bits(old(self)@, MIE_MEIE, v),
    {
        if v {
            self.0 = self.0 | (1 << 11);
        } else {
            self.0 = self.0 & !(1 << 11);
        }
        proof {
            assert(1usize << 11 == 0x800usize) by (bit_vector);
        }
    }

    /// Whether `MEIE` is set.
    pub fn meie(&self) -> (on: bool)
        ensures
            on == has_bits(self@, MIE_MEIE),
    {
        proof {
            assert(1usize << 11 == 0x800usize) by (bit_vector);
        }
        self.0 & (1 << 11) != 0
    }
}

/// A copy of `mcause`.
pub struct MCause(usize);

impl View for MCause {
    type V = usize;

    closed spec fn view(&self) -> usize {
        self.0
    }
}

impl MCause {
    /// A copy that holds `bits`.
    pub fn new(bits: usize) -> (r: Self)
        ensures
            r@ == bits,
    {
        MCause(bits)
    }

    /// The copy takes the value `bits`, as read from the register.
    pub fn reload(&mut self, bits: usize)
        ensures
            final(self)@ == bits,
    {
        self.0 = bits;
    }

    /// The cause of the trap: the lowest ten bits.
    pub fn code(&self) -> (code: usize)
        ensures
            code == self@ & MCAUSE_CODE,
            code < 1024,
    {
        let bits = self.0;
        proof {
            assert(bits & 0x3ff < 1024) by (bit_vector);
        }
        bits & 0x3ff
    }

    /// Whether the trap was an interrupt: bit 31.
    pub fn is_interrupt(&self) -> (interrupt: bool)
        ensures
            interrupt == has_bits(self@, MCAUSE_INTERRUPT),
    {
        self.0 & 0x8000_0000 != 0
    }
}

} // verus!
