//! RV32I instruction words: their bit fields, the two encoders the compiler
//! needs, and the byte order in which the compiler hands words out.
//!
//! An instruction word is 32 bits wide. In the ISA's own numbering the opcode
//! sits in bits 6..0, `rd` in 11..7, `funct3` in 14..12, `rs1` in 19..15 and
//! `rs2` in 24..20. The compiler's output holds each instruction in memory
//! order: the byte that the processor fetches first is the most significant
//! byte of the `u32`, so `lw a0, 4(sp)`, which the ISA numbers `0x00412503`,
//! is emitted as `0x03254100`.

use vstd::prelude::*;

verus! {

/// Opcode of the register-immediate arithmetic instructions.
pub const OPCODE_OP_IMM: u32 = 0x13;

/// Opcode of `lui`.
pub const OPCODE_LUI: u32 = 0x37;

/// Register `x0`, which always reads as zero.
pub const REG_ZERO: u32 = 0;

/// Register `x10`, the first scratch register of every primitive.
pub const REG_A0: u32 = 10;

/// Bits 6..0 of an instruction.
pub open spec fn opcode(insn: u32) -> u32 {
    insn & 0x7f
}

/// Bits 11..7 of an instruction: the destination register.
pub open spec fn rd(insn: u32) -> u32 {
    (insn >> 7) & 0x1f
}

/// Bits 14..12 of an instruction.
pub open spec fn funct3(insn: u32) -> u32 {
    (insn >> 12) & 0x7
}

/// Bits 19..15 of an instruction: the first source register.
pub open spec fn rs1(insn: u32) -> u32 {
    (insn >> 15) & 0x1f
}

/// Bits 24..20 of an instruction: the second source register.
pub open spec fn rs2(insn: u32) -> u32 {
    (insn >> 20) & 0x1f
}

/// Bits 31..25 of an instruction.
pub open spec fn funct7(insn: u32) -> u32 {
    insn >> 25
}

/// Bits 31..20 of an instruction, unextended: the immediate of an I-type
/// instruction.
pub open spec fn imm12(insn: u32) -> u32 {
    insn >> 20
}

/// Bits 31..12 of an instruction: the immediate of a U-type instruction.
pub open spec fn imm20(insn: u32) -> u32 {
    insn >> 12
}

/// `insn` is `addi dest, src, imm`, with `imm` the raw 12-bit field.
pub open spec fn is_addi(insn: u32, dest: u32, src: u32, imm: u32) -> bool {
    &&& opcode(insn) == OPCODE_OP_IMM
    &&& funct3(insn) == 0
    &&& rd(insn) == dest
    &&& rs1(insn) == src
    &&& imm12(insn) == imm
}

/// `insn` is `lui dest, imm`, with `imm` the raw 20-bit field.
pub open spec fn is_lui(insn: u32, dest: u32, imm: u32) -> bool {
    &&& opcode(insn) == OPCODE_LUI
    &&& rd(insn) == dest
    &&& imm20(insn) == imm
}

/// The `addi` instruction with the given fields.
pub open spec fn addi(dest: u32, src: u32, imm: u32) -> u32 {
    (imm << 20) | (src << 15) | (dest << 7) | OPCODE_OP_IMM
}

/// The `lui` instruction with the given fields.
pub open spec fn lui(dest: u32, imm: u32) -> u32 {
    (imm << 12) | (dest << 7) | OPCODE_LUI
}

/// The word with its four bytes in the opposite order.
pub open spec fn swap_bytes(word: u32) -> u32 {
    ((word & 0xff) << 24) | ((word & 0xff00) << 8) | ((word >> 8) & 0xff00) | (word >> 24)
}

/// `addi(..)` is the one word whose fields read back as an `addi` with these
/// operands.
pub proof fn lemma_addi_fields(insn: u32, dest: u32, src: u32, imm: u32)
    requires
        dest < 32,
        src < 32,
        imm < 0x1000,
    ensures
        is_addi(insn, dest, src, imm) <==> insn == addi(dest, src, imm),
{
    assert(dest < 32 && src < 32 && imm < 0x1000 ==> ((insn & 0x7f == 0x13 && (insn >> 12) & 0x7 == 0
        && (insn >> 7) & 0x1f == dest && (insn >> 15) & 0x1f == src && insn >> 20 == imm) <==> insn
        == ((imm << 20) | (src << 15) | (dest << 7) | 0x13))) by (bit_vector);
}

/// `lui(..)` is the one word whose fields read back as a `lui` with these
/// operands.
pub proof fn lemma_lui_fields(insn: u32, dest: u32, imm: u32)
    requires
        dest < 32,
        imm < 0x10_0000,
    ensures
        is_lui(insn, dest, imm) <==> insn == lui(dest, imm),
{
    assert(dest < 32 && imm < 0x10_0000 ==> ((insn & 0x7f == 0x37 && (insn >> 7) & 0x1f == dest
        && insn >> 12 == imm) <==> insn == ((imm << 12) | (dest << 7) | 0x37))) by (bit_vector);
}

/// Swapping the bytes twice gives the word back.
pub proof fn lemma_swap_bytes_twice(word: u32)
    ensures
        swap_bytes(swap_bytes(word)) == word,
{
    assert(swap_bytes(swap_bytes(word)) == word) by (bit_vector);
}

/// Encodes `addi dest, src, imm`.
pub fn encode_addi(dest: u32, src: u32, imm: u32) -> (insn: u32)
    requires
        dest < 32,
        src < 32,
        imm < 0x1000,
    ensures
        insn == addi(dest, src, imm),
        is_addi(insn, dest, src, imm),
{
    proof {
        lemma_addi_fields(addi(dest, src, imm), dest, src, imm);
    }
    (imm << 20) | (src << 15) | (dest << 7) | OPCODE_OP_IMM
}

/// Encodes `lui dest, imm`.
pub fn encode_lui(dest: u32, imm: u32) -> (insn: u32)
    requires
        dest < 32,
        imm < 0x10_0000,
    ensures
        insn == lui(dest, imm),
        is_lui(insn, dest, imm),
{
    proof {
        lemma_lui_fields(lui(dest, imm), dest, imm);
    }
    (imm << 12) | (dest << 7) | OPCODE_LUI
}

/// Puts an instruction into memory order, or takes it out of it.
pub fn to_memory_order(word: u32) -> (swapped: u32)
    ensures
        swapped == swap_bytes(word),
{
    ((word & 0xff) << 24) | ((word & 0xff00) << 8) | ((word >> 8) & 0xff00) | (word >> 24)
}

} // verus!
