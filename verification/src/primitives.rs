//! The primitive catalogue: each built-in operation and the instructions
//! that carry it out.
//!
//! The generated code keeps two stacks of 32-bit cells, both growing towards
//! lower addresses. `sp` points at the free cell below the operand stack, so
//! the top cell is `4(sp)` and the one under it `8(sp)`; `fp` does the same
//! for the return stack. `a0` and `a1` are the only scratch registers.
//!
//! Every word below is in memory order (see `rv32i`).

use vstd::prelude::*;
use vstd::string::StringSliceAdditionalSpecFns;
use vstd::std_specs::convert::TryFromSpecImpl;
use crate::rv32i::{addi, encode_addi, encode_lui, lui, swap_bytes, to_memory_order, REG_A0, REG_ZERO};

verus! {

/// How many instruction slots `get_instructions` hands back.
pub const PRIMITIVE_WIDTH: usize = 8;

/// Values below this bound are pushed with a single `addi`.
pub const SHORT_LITERAL_BOUND: u32 = 0xfff;

/// A built-in operation.
#[derive(Clone, Copy, Debug, PartialEq, Eq)]
pub enum Primitive {
    /// `!`: pops an address and a value and stores the value at the address.
    Load,
    /// `@`: replaces the address on top of the stack by the cell it points at.
    Fetch,
    /// An integer literal: pushes the value.
    Push(u32),
    /// `<<`: pops the amount, shifts the new top left by it.
    LShift,
    /// `>>`: pops the amount, shifts the new top right by it, filling with
    /// zeros.
    RShift,
    /// `+`
    Add,
    /// `-`
    Sub,
    /// `AND`
    And,
    /// `XOR`
    Xor,
    /// `OR`
    Or,
    /// `=`: pops two cells and leaves all ones if they are equal, else zero.
    Eq,
    /// `>`: pops two cells and leaves all ones if the lower one is greater than
    /// the top one, as signed numbers, else zero.
    Gt,
    /// `<`: pops two cells and leaves all ones if the lower one is less than
    /// the top one, as signed numbers, else zero.
    Lt,
    /// `BRANCH`: pops a target, saves the return address on the return
    /// stack, jumps and links, and restores the return address afterwards.
    Branch,
    /// `R>`: moves the top of the return stack to the operand stack.
    RFrom,
    /// `R<`: moves the top of the operand stack to the return stack.
    RTo,
}

/// The instructions that push `value`.
///
/// A value below `0xfff` is loaded with one `addi a0, zero, value`. Any other
/// value is split: `lui a0` loads its upper 20 bits and `addi a0, a0` adds
/// its lower 12 to them. Either way `sw a0, 0(sp)` and `addi sp, sp, -4`
/// follow.
pub open spec fn push_words(value: u32) -> Seq<u32> {
    if value < SHORT_LITERAL_BOUND {
        seq![swap_bytes(addi(REG_A0, REG_ZERO, value)), 0x2320a100u32, 0x1301c1ffu32]
    } else {
        seq![
            swap_bytes(lui(REG_A0, value >> 12)),
            swap_bytes(addi(REG_A0, REG_A0, value & 0xfff)),
            0x2320a100u32,
            0x1301c1ffu32,
        ]
    }
}

/// `words` followed by as many zeros as it takes to fill the eight slots.
pub open spec fn zero_padded(words: Seq<u32>) -> Seq<u32> {
    words + Seq::new((PRIMITIVE_WIDTH - words.len()) as nat, |i: int| 0u32)
}

impl Primitive {
    /// The instructions of the primitive, in the order they run.
    pub open spec fn words(self) -> Seq<u32> {
        match self {
            Primitive::Load => seq![0x03254100u32, 0x83258100u32, 0x13018100u32, 0x2320b500u32],
            Primitive::Fetch => seq![0x03254100u32, 0x03250500u32, 0x2322a100u32],
            Primitive::Push(value) => push_words(value),
            Primitive::LShift => seq![
                0x03254100u32,
                0x83258100u32,
                0x3395a500u32,
                0x13014100u32,
                0x2322a100u32,
            ],
            Primitive::RShift => seq![
                0x03254100u32,
                0x83258100u32,
                0x33d5a500u32,
                0x13014100u32,
                0x2322a100u32,
            ],
            Primitive::Add => seq![
                0x03254100u32,
                0x83258100u32,
                0x3385a500u32,
                0x13014100u32,
                0x2322a100u32,
            ],
            Primitive::Sub => seq![
                0x03254100u32,
                0x83258100u32,
                0x3385a540u32,
                0x13014100u32,
                0x2322a100u32,
            ],
            Primitive::And => seq![
                0x03254100u32,
                0x83258100u32,
                0x33f5a500u32,
                0x13014100u32,
                0x2322a100u32,
            ],
            Primitive::Xor => seq![
                0x03254100u32,
                0x83258100u32,
                0x33c5a500u32,
                0x13014100u32,
                0x2322a100u32,
            ],
            Primitive::Or => seq![
                0x03254100u32,
                0x83258100u32,
                0x33e5a500u32,
                0x13014100u32,
                0x2322a100u32,
            ],
            Primitive::Eq => seq![
                0x03254100u32,
                0x83258100u32,
                0x13014100u32,
                0x3345b500u32,
                0x13351500u32,
                0x1315f501u32,
                0x1355f541u32,
                0x2322a100u32,
            ],
            Primitive::Gt => seq![
                0x03254100u32,
                0x83258100u32,
                0x13014100u32,
                0x3325b500u32,
                0x1315f501u32,
                0x1355f541u32,
                0x2322a100u32,
            ],
            Primitive::Lt => seq![
                0x03254100u32,
                0x83258100u32,
                0x13014100u32,
                0x33a5a500u32,
                0x1315f501u32,
                0x1355f541u32,
                0x2322a100u32,
            ],
            Primitive::Branch => seq![
                0x13014100u32,
                0x03250100u32,
                0x23201400u32,
                0x1304c4ffu32,
                0xe7000500u32,
                0x13044400u32,
                0x83200400u32,
            ],
            Primitive::RFrom => seq![0x03254400u32, 0x13044400u32, 0x2320a100u32, 0x1301c1ffu32],
            Primitive::RTo => seq![0x03254100u32, 0x13014100u32, 0x2320a400u32, 0x1304c4ffu32],
        }
    }

    /// The instructions of the primitive in a buffer of eight slots, and how
    /// many of the slots are instructions. The slots behind them are zero.
    pub fn get_instructions(&self) -> (r: (usize, [u32; 8]))
        ensures
            3 <= r.0 <= PRIMITIVE_WIDTH,
            r.0 == self.words().len(),
            r.1@ == zero_padded(self.words()),
            matches!(*self, Primitive::Push(_)) ==> (r.0 == 3 <==> self->Push_0 < SHORT_LITERAL_BOUND),
    {
        let r: (usize, [u32; 8]) = match self {
            Primitive::Load => (
                4,
                [
                    0x03254100,  // lw a0, 4(sp)   address
                    0x83258100,  // lw a1, 8(sp)   value
                    0x13018100,  // addi sp, sp, 8
                    0x2320b500,  // sw a1, 0(a0)
                    0,
                    0,
                    0,
                    0,
                ],
            ),
            Primitive::Fetch => (
                3,
                [
                    0x03254100,  // lw a0, 4(sp)   address
                    0x03250500,  // lw a0, 0(a0)
                    0x2322a100,  // sw a0, 4(sp)
                    0,
                    0,
                    0,
                    0,
                    0,
                ],
            ),
            Primitive::LShift => (
                5,
                [
                    0x03254100,  // lw a0, 4(sp)   amount
                    0x83258100,  // lw a1, 8(sp)   value
                    0x3395a500,  // sll a0, a1, a0
                    0x13014100,  // addi sp, sp, 4
                    0x2322a100,  // sw a0, 4(sp)
                    0,
                    0,
                    0,
                ],
            ),
            Primitive::RShift => (
                5,
                [
                    0x03254100,  // lw a0, 4(sp)   amount
                    0x83258100,  // lw a1, 8(sp)   value
                    0x33d5a500,  // srl a0, a1, a0
                    0x13014100,  // addi sp, sp, 4
                    0x2322a100,  // sw a0, 4(sp)
                    0,
                    0,
                    0,
                ],
            ),
            Primitive::Add => (
                5,
                [
                    0x03254100,  // lw a0, 4(sp)
                    0x83258100,  // lw a1, 8(sp)
                    0x3385a500,  // add a0, a1, a0
                    0x13014100,  // addi sp, sp, 4
                    0x2322a100,  // sw a0, 4(sp)
                    0,
                    0,
                    0,
                ],
            ),
            Primitive::Sub => (
                5,
                [
                    0x03254100,  // lw a0, 4(sp)
                    0x83258100,  // lw a1, 8(sp)
                    0x3385a540,  // sub a0, a1, a0
                    0x13014100,  // addi sp, sp, 4
                    0x2322a100,  // sw a0, 4(sp)
                    0,
                    0,
                    0,
                ],
            ),
            Primitive::Xor => (
                5,
                [
                    0x03254100,  // lw a0, 4(sp)
                    0x83258100,  // lw a1, 8(sp)
                    0x33c5a500,  // xor a0, a1, a0
                    0x13014100,  // addi sp, sp, 4
                    0x2322a100,  // sw a0, 4(sp)
                    0,
                    0,
                    0,
                ],
            ),
            Primitive::Or => (
                5,
                [
                    0x03254100,  // lw a0, 4(sp)
                    0x83258100,  // lw a1, 8(sp)
                    0x33e5a500,  // or a0, a1, a0
                    0x13014100,  // addi sp, sp, 4
                    0x2322a100,  // sw a0, 4(sp)
                    0,
                    0,
                    0,
                ],
            ),
            Primitive::And => (
                5,
                [
                    0x03254100,  // lw a0, 4(sp)
                    0x83258100,  // lw a1, 8(sp)
                    0x33f5a500,  // and a0, a1, a0
                    0x13014100,  // addi sp, sp, 4
                    0x2322a100,  // sw a0, 4(sp)
                    0,
                    0,
                    0,
                ],
            ),
            Primitive::Eq => (
                8,
                [
                    0x03254100,  // lw a0, 4(sp)
                    0x83258100,  // lw a1, 8(sp)
                    0x13014100,  // addi sp, sp, 4
                    0x3345b500,  // xor a0, a0, a1
                    0x13351500,  // seqz a0, a0
                    0x1315f501,  // slli a0, a0, 31
                    0x1355f541,  // srai a0, a0, 31
                    0x2322a100,  // sw a0, 4(sp)
                ],
            ),
            Primitive::Lt => (
                7,
                [
                    0x03254100,  // lw a0, 4(sp)   right
                    0x83258100,  // lw a1, 8(sp)   left
                    0x13014100,  // addi sp, sp, 4
                    0x33a5a500,  // slt a0, a1, a0
                    0x1315f501,  // slli a0, a0, 31
                    0x1355f541,  // srai a0, a0, 31
                    0x2322a100,  // sw a0, 4(sp)
                    0,
                ],
            ),
            Primitive::Gt => (
                7,
                [
                    0x03254100,  // lw a0, 4(sp)   right
                    0x83258100,  // lw a1, 8(sp)   left
                    0x13014100,  // addi sp, sp, 4
                    0x3325b500,  // slt a0, a0, a1
                    0x1315f501,  // slli a0, a0, 31
                    0x1355f541,  // srai a0, a0, 31
                    0x2322a100,  // sw a0, 4(sp)
                    0,
                ],
            ),
            Primitive::Branch => (
                7,
                [
                    0x13014100,  // addi sp, sp, 4
                    0x03250100,  // lw a0, 0(sp)   target
                    0x23201400,  // sw ra, 0(fp)   save the return address
                    0x1304c4ff,  // addi fp, fp, -4
                    0xe7000500,  // jalr ra, 0(a0)
                    0x13044400,  // addi fp, fp, 4
                    0x83200400,  // lw ra, 0(fp)   restore the return address
                    0,
                ],
            ),
            Primitive::RTo => (
                4,
                [
                    0x03254100,  // lw a0, 4(sp)
                    0x13014100,  // addi sp, sp, 4
                    0x2320a400,  // sw a0, 0(fp)
                    0x1304c4ff,  // addi fp, fp, -4
                    0,
                    0,
                    0,
                    0,
                ],
            ),
            Primitive::RFrom => (
                4,
                [
                    0x03254400,  // lw a0, 4(fp)
                    0x13044400,  // addi fp, fp, 4
                    0x2320a100,  // sw a0, 0(sp)
                    0x1301c1ff,  // addi sp, sp, -4
                    0,
                    0,
                    0,
                    0,
                ],
            ),
            Primitive::Push(value) => {
                if *value < SHORT_LITERAL_BOUND {
                    let load = to_memory_order(encode_addi(REG_A0, REG_ZERO, *value));
                    (
                        3,
                        [
                            load,  // addi a0, zero, value
                            0x2320a100,  // sw a0, 0(sp)
                            0x1301c1ff,  // addi sp, sp, -4
                            0,
                            0,
                            0,
                            0,
                            0,
                        ],
                    )
                } else {
                    let upper: u32 = *value >> 12;
                    let lower: u32 = *value & 0xfff;
                    proof {
                        let v = *value;
                        assert(v >> 12 < 0x10_0000 && v & 0xfff < 0x1000) by (bit_vector);
                    }
                    let load_upper = to_memory_order(encode_lui(REG_A0, upper));
                    let load_lower = to_memory_order(encode_addi(REG_A0, REG_A0, lower));
                    (
                        4,
                        [
                            load_upper,  // lui a0, upper
                            load_lower,  // addi a0, a0, lower
                            0x2320a100,  // sw a0, 0(sp)
                            0x1301c1ff,  // addi sp, sp, -4
                            0,
                            0,
                            0,
                            0,
                        ],
                    )
                }
            },
        };
        proof {
            assert(r.1@ =~= zero_padded(self.words()));
        }
        r
    }
}

/// The primitive that a token names, if it names one. Integer literals are
/// not names: `Push` is never the answer.
pub open spec fn primitive_of(name: Seq<u8>) -> Option<Primitive> {
    if name == seq![0x21u8] {
        Some(Primitive::Load)  // !
    } else if name == seq![0x40u8] {
        Some(Primitive::Fetch)  // @
    } else if name == seq![0x3cu8, 0x3cu8] {
        Some(Primitive::LShift)  // <<
    } else if name == seq![0x3eu8, 0x3eu8] {
        Some(Primitive::RShift)  // >>
    } else if name == seq![0x2bu8] {
        Some(Primitive::Add)  // +
    } else if name == seq![0x2du8] {
        Some(Primitive::Sub)  // -
    } else if name == seq![0x58u8, 0x4fu8, 0x52u8] {
        Some(Primitive::Xor)  // XOR
    } else if name == seq![0x4fu8, 0x52u8] {
        Some(Primitive::Or)  // OR
    } else if name == seq![0x41u8, 0x4eu8, 0x44u8] {
        Some(Primitive::And)  // AND
    } else if name == seq![0x3du8] {
        Some(Primitive::Eq)  // =
    } else if name == seq![0x3eu8] {
        Some(Primitive::Gt)  // >
    } else if name == seq![0x3cu8] {
        Some(Primitive::Lt)  // <
    } else if name == seq![0x42u8, 0x52u8, 0x41u8, 0x4eu8, 0x43u8, 0x48u8] {
        Some(Primitive::Branch)  // BRANCH
    } else if name == seq![0x52u8, 0x3cu8] {
        Some(Primitive::RTo)  // R<
    } else if name == seq![0x52u8, 0x3eu8] {
        Some(Primitive::RFrom)  // R>
    } else {
        None
    }
}

impl<'a> TryFrom<&'a str> for Primitive {
    type Error = ();

    /// The primitive that `s` names; `Err` when it names none.
    fn try_from(s: &'a str) -> (r: Result<Primitive, ()>) {
        let b = s.as_bytes();
        let n = b.len();
        if n == 1 {
            let c: u8 = b[0];
            proof {
                assert(b@ =~= seq![c]);
            }
            if c == 0x21 {
                Ok(Primitive::Load)
            } else if c == 0x40 {
                Ok(Primitive::Fetch)
            } else if c == 0x2b {
                Ok(Primitive::Add)
            } else if c == 0x2d {
                Ok(Primitive::Sub)
            } else if c == 0x3d {
                Ok(Primitive::Eq)
            } else if c == 0x3e {
                Ok(Primitive::Gt)
            } else if c == 0x3c {
                Ok(Primitive::Lt)
            } else {
                Err(())
            }
        } else if n == 2 {
            let c: u8 = b[0];
            let d: u8 = b[1];
            proof {
                assert(b@ =~= seq![c, d]);
            }
            if c == 0x3c && d == 0x3c {
                Ok(Primitive::LShift)
            } else if c == 0x3e && d == 0x3e {
                Ok(Primitive::RShift)
            } else if c == 0x4f && d == 0x52 {
                Ok(Primitive::Or)
            } else if c == 0x52 && d == 0x3c {
                Ok(Primitive::RTo)
            } else if c == 0x52 && d == 0x3e {
                Ok(Primitive::RFrom)
            } else {
                Err(())
            }
        } else if n == 3 {
            let c: u8 = b[0];
            let d: u8 = b[1];
            let e: u8 = b[2];
            proof {
                assert(b@ =~= seq![c, d, e]);
            }
            if c == 0x58 && d == 0x4f && e == 0x52 {
                Ok(Primitive::Xor)
            } else if c == 0x41 && d == 0x4e && e == 0x44 {
                Ok(Primitive::And)
            } else {
                Err(())
            }
        } else if n == 6 {
            proof {
                assert(b@ =~= seq![b@[0], b@[1], b@[2], b@[3], b@[4], b@[5]]);
            }
            if b[0] == 0x42 && b[1] == 0x52 && b[2] == 0x41 && b[3] == 0x4e && b[4] == 0x43 && b[5]
                == 0x48 {
                Ok(Primitive::Branch)
            } else {
                Err(())
            }
        } else {
            Err(())
        }
    }
}

impl<'a> TryFromSpecImpl<&'a str> for Primitive {
    open spec fn obeys_try_from_spec() -> bool {
        true
    }

    open spec fn try_from_spec(s: &'a str) -> Result<Primitive, ()> {
        match primitive_of(s.spec_bytes()) {
            Some(p) => Ok(p),
            None => Err(()),
        }
    }
}

} // verus!
