//! The running hash that keys the word dictionary.
//!
//! The accumulator starts at 5381 and absorbs one byte at a time as
//! `hash * 33 + byte`. The accumulator is 64 bits wide and wraps; the
//! dictionary key is its low 32 bits, which is the same number as running
//! the whole recurrence modulo 2^32 (`lemma_low_bits_are_digest`).

use vstd::prelude::*;
use vstd::string::StringSliceAdditionalSpecFns;
use vstd::arithmetic::div_mod::{lemma_add_mod_noop, lemma_mod_mod, lemma_mul_mod_noop_left, lemma_small_mod};

verus! {

/// The value every hash starts from.
pub const DJB2_SEED: u64 = 5381;

/// One step of the recurrence on the 64-bit accumulator, wrapping.
pub open spec fn absorb_byte(h: u64, b: u8) -> u64 {
    ((h * 33 + b) % 0x1_0000_0000_0000_0000) as u64
}

/// The accumulator after `bytes` have been absorbed, first byte first,
/// starting from `h`.
pub open spec fn absorb(h: u64, bytes: Seq<u8>) -> u64
    decreases bytes.len(),
{
    if bytes.len() == 0 {
        h
    } else {
        absorb_byte(absorb(h, bytes.drop_last()), bytes.last())
    }
}

/// The 32-bit digest of `bytes`: the recurrence `hash * 33 + byte` from the
/// seed, taken modulo 2^32 at every step.
pub open spec fn djb2(bytes: Seq<u8>) -> u32
    decreases bytes.len(),
{
    if bytes.len() == 0 {
        5381
    } else {
        ((djb2(bytes.drop_last()) * 33 + bytes.last()) % 0x1_0000_0000) as u32
    }
}

/// Absorbing `a + b` is absorbing `a` and then `b`.
pub proof fn lemma_absorb_concat(h: u64, a: Seq<u8>, b: Seq<u8>)
    ensures
        absorb(h, a + b) == absorb(absorb(h, a), b),
    decreases b.len(),
{
    if b.len() == 0 {
        assert(a + b =~= a);
    } else {
        lemma_absorb_concat(h, a, b.drop_last());
        assert((a + b).drop_last() =~= a + b.drop_last());
        assert((a + b).last() == b.last());
    }
}

/// The low 32 bits of the 64-bit accumulator are the 32-bit digest.
pub proof fn lemma_low_bits_are_digest(bytes: Seq<u8>)
    ensures
        absorb(DJB2_SEED, bytes) % 0x1_0000_0000 == djb2(bytes),
    decreases bytes.len(),
{
    if bytes.len() == 0 {
    } else {
        let prev = absorb(DJB2_SEED, bytes.drop_last());
        let b = bytes.last();
        lemma_low_bits_are_digest(bytes.drop_last());
        let x = prev * 33 + b;
        assert((x % 0x1_0000_0000_0000_0000) % 0x1_0000_0000 == x % 0x1_0000_0000) by {
            lemma_mod_mod(x, 0x1_0000_0000, 0x1_0000_0000);
        }
        assert(x % 0x1_0000_0000 == ((prev % 0x1_0000_0000) * 33 + b) % 0x1_0000_0000) by {
            lemma_mul_mod_noop_left(prev as int, 33, 0x1_0000_0000);
            lemma_add_mod_noop(prev * 33, b as int, 0x1_0000_0000);
            lemma_add_mod_noop((prev % 0x1_0000_0000) * 33, b as int, 0x1_0000_0000);
        }
    }
}

/// A DJB2 hasher: a 64-bit accumulator that absorbs bytes.
pub struct DJB2(u64);

impl View for DJB2 {
    type V = u64;

    /// The accumulator.
    closed spec fn view(&self) -> u64 {
        self.0
    }
}

impl DJB2 {
    /// A hasher that has absorbed nothing.
    pub fn new() -> (h: Self)
        ensures
            h@ == DJB2_SEED,
    {
        DJB2(5381)
    }

    /// Absorbs `bytes`, first byte first.
    pub fn write(&mut self, bytes: &[u8])
        ensures
            final(self)@ == absorb(old(self)@, bytes@),
    {
        let mut i: usize = 0;
        while i < bytes.len()
            invariant
                i <= bytes@.len(),
                self@ == absorb(old(self)@, bytes@.subrange(0, i as int)),
            decreases bytes@.len() - i,
        {
            let b: u8 = bytes[i];
            let ghost h = self.0;
            self.0 = self.0.wrapping_mul(33).wrapping_add(b as u64);
            proof {
                let m = (h * 33) % 0x1_0000_0000_0000_0000;
                assert((m + b) % 0x1_0000_0000_0000_0000 == (h * 33 + b) % 0x1_0000_0000_0000_0000) by {
                    lemma_add_mod_noop(h * 33, b as int, 0x1_0000_0000_0000_0000);
                    lemma_add_mod_noop(m, b as int, 0x1_0000_0000_0000_0000);
                    lemma_mod_mod(h * 33, 0x1_0000_0000_0000_0000, 1);
                }
                if m + b > u64::MAX {
                    assert((m + b) % 0x1_0000_0000_0000_0000 == m + b - 0x1_0000_0000_0000_0000) by {
                        lemma_small_mod((m + b - 0x1_0000_0000_0000_0000) as nat, 0x1_0000_0000_0000_0000);
                        vstd::arithmetic::div_mod::lemma_mod_add_multiples_vanish(
                            m + b - 0x1_0000_0000_0000_0000,
                            0x1_0000_0000_0000_0000,
                        );
                    }
                } else {
                    lemma_small_mod((m + b) as nat, 0x1_0000_0000_0000_0000);
                }
                let next = bytes@.subrange(0, i + 1);
                assert(next.drop_last() =~= bytes@.subrange(0, i as int));
                assert(next.last() == b);
            }
            i = i + 1;
        }
        proof {
            assert(bytes@.subrange(0, i as int) =~= bytes@);
        }
    }

    /// The accumulator, all 64 bits of it.
    pub fn finish(&self) -> (h: u64)
        ensures
            h == self@,
    {
        self.0
    }
}

/// The dictionary key of a name: the 32-bit digest of its UTF-8 bytes.
pub fn get_hash(s: &str) -> (key: u32)
    ensures
        key == djb2(s.spec_bytes()),
{
    let mut hasher = DJB2::new();
    hasher.write(s.as_bytes());
    let full: u64 = hasher.finish();
    proof {
        lemma_low_bits_are_digest(s.spec_bytes());
        assert(full & 0xffff_ffff == full % 0x1_0000_0000) by (bit_vector);
    }
    (full & 0xffff_ffff) as u32
}

} // verus!
