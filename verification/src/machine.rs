//! What the emitted instructions do.
//!
//! `decode` reads an instruction word as the ISA numbers it, and `execute`
//! says what the instruction does to the registers and to memory. Only the
//! instructions that the primitives use are covered. Memory is taken cell by
//! cell: an address names one 32-bit cell, and two addresses name the same
//! cell only if they are equal. That is what the processor does as long as
//! every access is aligned. `jalr` leaves the straight line and is decoded
//! but not executed.

use vstd::prelude::*;
use crate::primitives::{Primitive, SHORT_LITERAL_BOUND};
use crate::rv32i::{
    addi, funct3, funct7, imm12, imm20, lemma_addi_fields, lemma_lui_fields, lemma_swap_bytes_twice, lui,
    opcode, rd, rs1, rs2, swap_bytes, REG_A0, REG_ZERO,
};

verus! {

/// Register `x1`, the link register.
pub const REG_RA: u32 = 1;

/// Register `x2`, which points at the free cell below the operand stack.
pub const REG_SP: u32 = 2;

/// Register `x8`, which points at the free cell below the return stack.
pub const REG_FP: u32 = 8;

/// Register `x11`, the second scratch register.
pub const REG_A1: u32 = 11;

/// An instruction, with its operands as the fields of the word hold them:
/// registers by number, immediates unextended.
pub enum Instruction {
    Lui { rd: u32, imm: u32 },
    Jalr { rd: u32, rs1: u32, imm: u32 },
    Lw { rd: u32, rs1: u32, imm: u32 },
    /// Stores `rs2` at the address in `rs1` plus `imm`.
    Sw { rs1: u32, rs2: u32, imm: u32 },
    Addi { rd: u32, rs1: u32, imm: u32 },
    Sltiu { rd: u32, rs1: u32, imm: u32 },
    Slli { rd: u32, rs1: u32, shamt: u32 },
    Srai { rd: u32, rs1: u32, shamt: u32 },
    Add { rd: u32, rs1: u32, rs2: u32 },
    Sub { rd: u32, rs1: u32, rs2: u32 },
    Sll { rd: u32, rs1: u32, rs2: u32 },
    Slt { rd: u32, rs1: u32, rs2: u32 },
    Xor { rd: u32, rs1: u32, rs2: u32 },
    Srl { rd: u32, rs1: u32, rs2: u32 },
    Or { rd: u32, rs1: u32, rs2: u32 },
    And { rd: u32, rs1: u32, rs2: u32 },
}

/// The instruction that the word `insn` is, in the ISA's numbering of its
/// bits.
pub open spec fn decode(insn: u32) -> Option<Instruction> {
    let op = opcode(insn);
    if op == 0x37 {
        Some(Instruction::Lui { rd: rd(insn), imm: imm20(insn) })
    } else if op == 0x67 && funct3(insn) == 0 {
        Some(Instruction::Jalr { rd: rd(insn), rs1: rs1(insn), imm: imm12(insn) })
    } else if op == 0x03 && funct3(insn) == 2 {
        Some(Instruction::Lw { rd: rd(insn), rs1: rs1(insn), imm: imm12(insn) })
    } else if op == 0x23 && funct3(insn) == 2 {
        Some(Instruction::Sw { rs1: rs1(insn), rs2: rs2(insn), imm: (funct7(insn) * 32 + rd(insn)) as u32 })
    } else if op == 0x13 {
        if funct3(insn) == 0 {
            Some(Instruction::Addi { rd: rd(insn), rs1: rs1(insn), imm: imm12(insn) })
        } else if funct3(insn) == 3 {
            Some(Instruction::Sltiu { rd: rd(insn), rs1: rs1(insn), imm: imm12(insn) })
        } else if funct3(insn) == 1 && funct7(insn) == 0 {
            Some(Instruction::Slli { rd: rd(insn), rs1: rs1(insn), shamt: rs2(insn) })
        } else if funct3(insn) == 5 && funct7(insn) == 0x20 {
            Some(Instruction::Srai { rd: rd(insn), rs1: rs1(insn), shamt: rs2(insn) })
        } else {
            None
        }
    } else if op == 0x33 {
        let (d, a, b) = (rd(insn), rs1(insn), rs2(insn));
        if funct7(insn) == 0 {
            if funct3(insn) == 0 {
                Some(Instruction::Add { rd: d, rs1: a, rs2: b })
            } else if funct3(insn) == 1 {
                Some(Instruction::Sll { rd: d, rs1: a, rs2: b })
            } else if funct3(insn) == 2 {
                Some(Instruction::Slt { rd: d, rs1: a, rs2: b })
            } else if funct3(insn) == 4 {
                Some(Instruction::Xor { rd: d, rs1: a, rs2: b })
            } else if funct3(insn) == 5 {
                Some(Instruction::Srl { rd: d, rs1: a, rs2: b })
            } else if funct3(insn) == 6 {
                Some(Instruction::Or { rd: d, rs1: a, rs2: b })
            } else if funct3(insn) == 7 {
                Some(Instruction::And { rd: d, rs1: a, rs2: b })
            } else {
                None
            }
        } else if funct7(insn) == 0x20 && funct3(insn) == 0 {
            Some(Instruction::Sub { rd: d, rs1: a, rs2: b })
        } else {
            None
        }
    } else {
        None
    }
}

/// The instruction that an emitted word is: the word is in memory order.
pub open spec fn decode_emitted(word: u32) -> Option<Instruction> {
    decode(swap_bytes(word))
}

proof fn lemma_table_order()
    by (bit_vector)
    ensures
        swap_bytes(0x03254100u32) == 0x00412503u32,
        swap_bytes(0x83258100u32) == 0x00812583u32,
        swap_bytes(0x13018100u32) == 0x00810113u32,
        swap_bytes(0x2320b500u32) == 0x00b52023u32,
        swap_bytes(0x03250500u32) == 0x00052503u32,
        swap_bytes(0x2322a100u32) == 0x00a12223u32,
        swap_bytes(0x3395a500u32) == 0x00a59533u32,
        swap_bytes(0x13014100u32) == 0x00410113u32,
        swap_bytes(0x33d5a500u32) == 0x00a5d533u32,
        swap_bytes(0x3385a500u32) == 0x00a58533u32,
        swap_bytes(0x3385a540u32) == 0x40a58533u32,
        swap_bytes(0x33c5a500u32) == 0x00a5c533u32,
        swap_bytes(0x33e5a500u32) == 0x00a5e533u32,
        swap_bytes(0x33f5a500u32) == 0x00a5f533u32,
        swap_bytes(0x3345b500u32) == 0x00b54533u32,
        swap_bytes(0x13351500u32) == 0x00153513u32,
        swap_bytes(0x1315f501u32) == 0x01f51513u32,
        swap_bytes(0x1355f541u32) == 0x41f55513u32,
        swap_bytes(0x33a5a500u32) == 0x00a5a533u32,
        swap_bytes(0x2320a100u32) == 0x00a12023u32,
        swap_bytes(0x3325b500u32) == 0x00b52533u32,
        swap_bytes(0x03250100u32) == 0x00012503u32,
        swap_bytes(0x23201400u32) == 0x00142023u32,
        swap_bytes(0x1304c4ffu32) == 0xffc40413u32,
        swap_bytes(0xe7000500u32) == 0x000500e7u32,
        swap_bytes(0x13044400u32) == 0x00440413u32,
        swap_bytes(0x83200400u32) == 0x00042083u32,
        swap_bytes(0x2320a400u32) == 0x00a42023u32,
        swap_bytes(0x03254400u32) == 0x00442503u32,
        swap_bytes(0x1301c1ffu32) == 0xffc10113u32,
{
}

proof fn lemma_table_fields()
    by (bit_vector)
    ensures
        opcode(0x00412503u32) == 0x3 && rd(0x00412503u32) == 10 && funct3(0x00412503u32) == 2 && rs1(0x00412503u32) == 2 && rs2(0x00412503u32) == 4 && funct7(0x00412503u32) == 0x0 && imm12(0x00412503u32) == 0x4,
        opcode(0x00812583u32) == 0x3 && rd(0x00812583u32) == 11 && funct3(0x00812583u32) == 2 && rs1(0x00812583u32) == 2 && rs2(0x00812583u32) == 8 && funct7(0x00812583u32) == 0x0 && imm12(0x00812583u32) == 0x8,
        opcode(0x00810113u32) == 0x13 && rd(0x00810113u32) == 2 && funct3(0x00810113u32) == 0 && rs1(0x00810113u32) == 2 && rs2(0x00810113u32) == 8 && funct7(0x00810113u32) == 0x0 && imm12(0x00810113u32) == 0x8,
        opcode(0x00b52023u32) == 0x23 && rd(0x00b52023u32) == 0 && funct3(0x00b52023u32) == 2 && rs1(0x00b52023u32) == 10 && rs2(0x00b52023u32) == 11 && funct7(0x00b52023u32) == 0x0 && imm12(0x00b52023u32) == 0xb,
        opcode(0x00052503u32) == 0x3 && rd(0x00052503u32) == 10 && funct3(0x00052503u32) == 2 && rs1(0x00052503u32) == 10 && rs2(0x00052503u32) == 0 && funct7(0x00052503u32) == 0x0 && imm12(0x00052503u32) == 0x0,
        opcode(0x00a12223u32) == 0x23 && rd(0x00a12223u32) == 4 && funct3(0x00a12223u32) == 2 && rs1(0x00a12223u32) == 2 && rs2(0x00a12223u32) == 10 && funct7(0x00a12223u32) == 0x0 && imm12(0x00a12223u32) == 0xa,
        opcode(0x00a59533u32) == 0x33 && rd(0x00a59533u32) == 10 && funct3(0x00a59533u32) == 1 && rs1(0x00a59533u32) == 11 && rs2(0x00a59533u32) == 10 && funct7(0x00a59533u32) == 0x0 && imm12(0x00a59533u32) == 0xa,
        opcode(0x00410113u32) == 0x13 && rd(0x00410113u32) == 2 && funct3(0x00410113u32) == 0 && rs1(0x00410113u32) == 2 && rs2(0x00410113u32) == 4 && funct7(0x00410113u32) == 0x0 && imm12(0x00410113u32) == 0x4,
        opcode(0x00a5d533u32) == 0x33 && rd(0x00a5d533u32) == 10 && funct3(0x00a5d533u32) == 5 && rs1(0x00a5d533u32) == 11 && rs2(0x00a5d533u32) == 10 && funct7(0x00a5d533u32) == 0x0 && imm12(0x00a5d533u32) == 0xa,
        opcode(0x00a58533u32) == 0x33 && rd(0x00a58533u32) == 10 && funct3(0x00a58533u32) == 0 && rs1(0x00a58533u32) == 11 && rs2(0x00a58533u32) == 10 && funct7(0x00a58533u32) == 0x0 && imm12(0x00a58533u32) == 0xa,
        opcode(0x40a58533u32) == 0x33 && rd(0x40a58533u32) == 10 && funct3(0x40a58533u32) == 0 && rs1(0x40a58533u32) == 11 && rs2(0x40a58533u32) == 10 && funct7(0x40a58533u32) == 0x20 && imm12(0x40a58533u32) == 0x40a,
        opcode(0x00a5c533u32) == 0x33 && rd(0x00a5c533u32) == 10 && funct3(0x00a5c533u32) == 4 && rs1(0x00a5c533u32) == 11 && rs2(0x00a5c533u32) == 10 && funct7(0x00a5c533u32) == 0x0 && imm12(0x00a5c533u32) == 0xa,
        opcode(0x00a5e533u32) == 0x33 && rd(0x00a5e533u32) == 10 && funct3(0x00a5e533u32) == 6 && rs1(0x00a5e533u32) == 11 && rs2(0x00a5e533u32) == 10 && funct7(0x00a5e533u32) == 0x0 && imm12(0x00a5e533u32) == 0xa,
        opcode(0x00a5f533u32) == 0x33 && rd(0x00a5f533u32) == 10 && funct3(0x00a5f533u32) == 7 && rs1(0x00a5f533u32) == 11 && rs2(0x00a5f533u32) == 10 && funct7(0x00a5f533u32) == 0x0 && imm12(0x00a5f533u32) == 0xa,
        opcode(0x00b54533u32) == 0x33 && rd(0x00b54533u32) == 10 && funct3(0x00b54533u32) == 4 && rs1(0x00b54533u32) == 10 && rs2(0x00b54533u32) == 11 && funct7(0x00b54533u32) == 0x0 && imm12(0x00b54533u32) == 0xb,
        opcode(0x00153513u32) == 0x13 && rd(0x00153513u32) == 10 && funct3(0x00153513u32) == 3 && rs1(0x00153513u32) == 10 && rs2(0x00153513u32) == 1 && funct7(0x00153513u32) == 0x0 && imm12(0x00153513u32) == 0x1,
        opcode(0x01f51513u32) == 0x13 && rd(0x01f51513u32) == 10 && funct3(0x01f51513u32) == 1 && rs1(0x01f51513u32) == 10 && rs2(0x01f51513u32) == 31 && funct7(0x01f51513u32) == 0x0 && imm12(0x01f51513u32) == 0x1f,
        opcode(0x41f55513u32) == 0x13 && rd(0x41f55513u32) == 10 && funct3(0x41f55513u32) == 5 && rs1(0x41f55513u32) == 10 && rs2(0x41f55513u32) == 31 && funct7(0x41f55513u32) == 0x20 && imm12(0x41f55513u32) == 0x41f,
        opcode(0x00a5a533u32) == 0x33 && rd(0x00a5a533u32) == 10 && funct3(0x00a5a533u32) == 2 && rs1(0x00a5a533u32) == 11 && rs2(0x00a5a533u32) == 10 && funct7(0x00a5a533u32) == 0x0 && imm12(0x00a5a533u32) == 0xa,
        opcode(0x00a12023u32) == 0x23 && rd(0x00a12023u32) == 0 && funct3(0x00a12023u32) == 2 && rs1(0x00a12023u32) == 2 && rs2(0x00a12023u32) == 10 && funct7(0x00a12023u32) == 0x0 && imm12(0x00a12023u32) == 0xa,
        opcode(0x00b52533u32) == 0x33 && rd(0x00b52533u32) == 10 && funct3(0x00b52533u32) == 2 && rs1(0x00b52533u32) == 10 && rs2(0x00b52533u32) == 11 && funct7(0x00b52533u32) == 0x0 && imm12(0x00b52533u32) == 0xb,
        opcode(0x00012503u32) == 0x3 && rd(0x00012503u32) == 10 && funct3(0x00012503u32) == 2 && rs1(0x00012503u32) == 2 && rs2(0x00012503u32) == 0 && funct7(0x00012503u32) == 0x0 && imm12(0x00012503u32) == 0x0,
        opcode(0x00142023u32) == 0x23 && rd(0x00142023u32) == 0 && funct3(0x00142023u32) == 2 && rs1(0x00142023u32) == 8 && rs2(0x00142023u32) == 1 && funct7(0x00142023u32) == 0x0 && imm12(0x00142023u32) == 0x1,
        opcode(0xffc40413u32) == 0x13 && rd(0xffc40413u32) == 8 && funct3(0xffc40413u32) == 0 && rs1(0xffc40413u32) == 8 && rs2(0xffc40413u32) == 28 && funct7(0xffc40413u32) == 0x7f && imm12(0xffc40413u32) == 0xffc,
        opcode(0x000500e7u32) == 0x67 && rd(0x000500e7u32) == 1 && funct3(0x000500e7u32) == 0 && rs1(0x000500e7u32) == 10 && rs2(0x000500e7u32) == 0 && funct7(0x000500e7u32) == 0x0 && imm12(0x000500e7u32) == 0x0,
        opcode(0x00440413u32) == 0x13 && rd(0x00440413u32) == 8 && funct3(0x00440413u32) == 0 && rs1(0x00440413u32) == 8 && rs2(0x00440413u32) == 4 && funct7(0x00440413u32) == 0x0 && imm12(0x00440413u32) == 0x4,
        opcode(0x00042083u32) == 0x3 && rd(0x00042083u32) == 1 && funct3(0x00042083u32) == 2 && rs1(0x00042083u32) == 8 && rs2(0x00042083u32) == 0 && funct7(0x00042083u32) == 0x0 && imm12(0x00042083u32) == 0x0,
        opcode(0x00a42023u32) == 0x23 && rd(0x00a42023u32) == 0 && funct3(0x00a42023u32) == 2 && rs1(0x00a42023u32) == 8 && rs2(0x00a42023u32) == 10 && funct7(0x00a42023u32) == 0x0 && imm12(0x00a42023u32) == 0xa,
        opcode(0x00442503u32) == 0x3 && rd(0x00442503u32) == 10 && funct3(0x00442503u32) == 2 && rs1(0x00442503u32) == 8 && rs2(0x00442503u32) == 4 && funct7(0x00442503u32) == 0x0 && imm12(0x00442503u32) == 0x4,
        opcode(0xffc10113u32) == 0x13 && rd(0xffc10113u32) == 2 && funct3(0xffc10113u32) == 0 && rs1(0xffc10113u32) == 2 && rs2(0xffc10113u32) == 28 && funct7(0xffc10113u32) == 0x7f && imm12(0xffc10113u32) == 0xffc,
{
}

/// Every word of the primitive table is the instruction that its listing
/// names.
pub proof fn lemma_table_decodes()
    ensures
        decode(0x00412503u32) == Some(Instruction::Lw { rd: REG_A0, rs1: REG_SP, imm: 0x4 }),
        decode(0x00812583u32) == Some(Instruction::Lw { rd: REG_A1, rs1: REG_SP, imm: 0x8 }),
        decode(0x00810113u32) == Some(Instruction::Addi { rd: REG_SP, rs1: REG_SP, imm: 0x8 }),
        decode(0x00b52023u32) == Some(Instruction::Sw { rs1: REG_A0, rs2: REG_A1, imm: 0x0 }),
        decode(0x00052503u32) == Some(Instruction::Lw { rd: REG_A0, rs1: REG_A0, imm: 0x0 }),
        decode(0x00a12223u32) == Some(Instruction::Sw { rs1: REG_SP, rs2: REG_A0, imm: 0x4 }),
        decode(0x00a59533u32) == Some(Instruction::Sll { rd: REG_A0, rs1: REG_A1, rs2: REG_A0 }),
        decode(0x00410113u32) == Some(Instruction::Addi { rd: REG_SP, rs1: REG_SP, imm: 0x4 }),
        decode(0x00a5d533u32) == Some(Instruction::Srl { rd: REG_A0, rs1: REG_A1, rs2: REG_A0 }),
        decode(0x00a58533u32) == Some(Instruction::Add { rd: REG_A0, rs1: REG_A1, rs2: REG_A0 }),
        decode(0x40a58533u32) == Some(Instruction::Sub { rd: REG_A0, rs1: REG_A1, rs2: REG_A0 }),
        decode(0x00a5c533u32) == Some(Instruction::Xor { rd: REG_A0, rs1: REG_A1, rs2: REG_A0 }),
        decode(0x00a5e533u32) == Some(Instruction::Or { rd: REG_A0, rs1: REG_A1, rs2: REG_A0 }),
        decode(0x00a5f533u32) == Some(Instruction::And { rd: REG_A0, rs1: REG_A1, rs2: REG_A0 }),
        decode(0x00b54533u32) == Some(Instruction::Xor { rd: REG_A0, rs1: REG_A0, rs2: REG_A1 }),
        decode(0x00153513u32) == Some(Instruction::Sltiu { rd: REG_A0, rs1: REG_A0, imm: 0x1 }),
        decode(0x01f51513u32) == Some(Instruction::Slli { rd: REG_A0, rs1: REG_A0, shamt: 31 }),
        decode(0x41f55513u32) == Some(Instruction::Srai { rd: REG_A0, rs1: REG_A0, shamt: 31 }),
        decode(0x00a5a533u32) == Some(Instruction::Slt { rd: REG_A0, rs1: REG_A1, rs2: REG_A0 }),
        decode(0x00a12023u32) == Some(Instruction::Sw { rs1: REG_SP, rs2: REG_A0, imm: 0x0 }),
        decode(0x00b52533u32) == Some(Instruction::Slt { rd: REG_A0, rs1: REG_A0, rs2: REG_A1 }),
        decode(0x00012503u32) == Some(Instruction::Lw { rd: REG_A0, rs1: REG_SP, imm: 0x0 }),
        decode(0x00142023u32) == Some(Instruction::Sw { rs1: REG_FP, rs2: REG_RA, imm: 0x0 }),
        decode(0xffc40413u32) == Some(Instruction::Addi { rd: REG_FP, rs1: REG_FP, imm: 0xffc }),
        decode(0x000500e7u32) == Some(Instruction::Jalr { rd: REG_RA, rs1: REG_A0, imm: 0x0 }),
        decode(0x00440413u32) == Some(Instruction::Addi { rd: REG_FP, rs1: REG_FP, imm: 0x4 }),
        decode(0x00042083u32) == Some(Instruction::Lw { rd: REG_RA, rs1: REG_FP, imm: 0x0 }),
        decode(0x00a42023u32) == Some(Instruction::Sw { rs1: REG_FP, rs2: REG_A0, imm: 0x0 }),
        decode(0x00442503u32) == Some(Instruction::Lw { rd: REG_A0, rs1: REG_FP, imm: 0x4 }),
        decode(0xffc10113u32) == Some(Instruction::Addi { rd: REG_SP, rs1: REG_SP, imm: 0xffc }),
{
    lemma_table_fields();
}

impl Primitive {
    /// The instructions of the primitive as assembly.
    pub open spec fn listing(self) -> Seq<Instruction> {
        match self {
            Primitive::Load => seq![
                Instruction::Lw { rd: REG_A0, rs1: REG_SP, imm: 0x4 },
                Instruction::Lw { rd: REG_A1, rs1: REG_SP, imm: 0x8 },
                Instruction::Addi { rd: REG_SP, rs1: REG_SP, imm: 0x8 },
                Instruction::Sw { rs1: REG_A0, rs2: REG_A1, imm: 0x0 },
            ],
            Primitive::Fetch => seq![
                Instruction::Lw { rd: REG_A0, rs1: REG_SP, imm: 0x4 },
                Instruction::Lw { rd: REG_A0, rs1: REG_A0, imm: 0x0 },
                Instruction::Sw { rs1: REG_SP, rs2: REG_A0, imm: 0x4 },
            ],
            Primitive::LShift => seq![
                Instruction::Lw { rd: REG_A0, rs1: REG_SP, imm: 0x4 },
                Instruction::Lw { rd: REG_A1, rs1: REG_SP, imm: 0x8 },
                Instruction::Sll { rd: REG_A0, rs1: REG_A1, rs2: REG_A0 },
                Instruction::Addi { rd: REG_SP, rs1: REG_SP, imm: 0x4 },
                Instruction::Sw { rs1: REG_SP, rs2: REG_A0, imm: 0x4 },
            ],
            Primitive::RShift => seq![
                Instruction::Lw { rd: REG_A0, rs1: REG_SP, imm: 0x4 },
                Instruction::Lw { rd: REG_A1, rs1: REG_SP, imm: 0x8 },
                Instruction::Srl { rd: REG_A0, rs1: REG_A1, rs2: REG_A0 },
                Instruction::Addi { rd: REG_SP, rs1: REG_SP, imm: 0x4 },
                Instruction::Sw { rs1: REG_SP, rs2: REG_A0, imm: 0x4 },
            ],
            Primitive::Add => seq![
                Instruction::Lw { rd: REG_A0, rs1: REG_SP, imm: 0x4 },
                Instruction::Lw { rd: REG_A1, rs1: REG_SP, imm: 0x8 },
                Instruction::Add { rd: REG_A0, rs1: REG_A1, rs2: REG_A0 },
                Instruction::Addi { rd: REG_SP, rs1: REG_SP, imm: 0x4 },
                Instruction::Sw { rs1: REG_SP, rs2: REG_A0, imm: 0x4 },
            ],
            Primitive::Sub => seq![
                Instruction::Lw { rd: REG_A0, rs1: REG_SP, imm: 0x4 },
                Instruction::Lw { rd: REG_A1, rs1: REG_SP, imm: 0x8 },
                Instruction::Sub { rd: REG_A0, rs1: REG_A1, rs2: REG_A0 },
                Instruction::Addi { rd: REG_SP, rs1: REG_SP, imm: 0x4 },
                Instruction::Sw { rs1: REG_SP, rs2: REG_A0, imm: 0x4 },
            ],
            Primitive::And => seq![
                Instruction::Lw { rd: REG_A0, rs1: REG_SP, imm: 0x4 },
                Instruction::Lw { rd: REG_A1, rs1: REG_SP, imm: 0x8 },
                Instruction::And { rd: REG_A0, rs1: REG_A1, rs2: REG_A0 },
                Instruction::Addi { rd: REG_SP, rs1: REG_SP, imm: 0x4 },
                Instruction::Sw { rs1: REG_SP, rs2: REG_A0, imm: 0x4 },
            ],
            Primitive::Xor => seq![
                Instruction::Lw { rd: REG_A0, rs1: REG_SP, imm: 0x4 },
                Instruction::Lw { rd: REG_A1, rs1: REG_SP, imm: 0x8 },
                Instruction::Xor { rd: REG_A0, rs1: REG_A1, rs2: REG_A0 },
                Instruction::Addi { rd: REG_SP, rs1: REG_SP, imm: 0x4 },
                Instruction::Sw { rs1: REG_SP, rs2: REG_A0, imm: 0x4 },
            ],
            Primitive::Or => seq![
                Instruction::Lw { rd: REG_A0, rs1: REG_SP, imm: 0x4 },
                Instruction::Lw { rd: REG_A1, rs1: REG_SP, imm: 0x8 },
                Instruction::Or { rd: REG_A0, rs1: REG_A1, rs2: REG_A0 },
                Instruction::Addi { rd: REG_SP, rs1: REG_SP, imm: 0x4 },
                Instruction::Sw { rs1: REG_SP, rs2: REG_A0, imm: 0x4 },
            ],
            Primitive::Eq => seq![
                Instruction::Lw { rd: REG_A0, rs1: REG_SP, imm: 0x4 },
                Instruction::Lw { rd: REG_A1, rs1: REG_SP, imm: 0x8 },
                Instruction::Addi { rd: REG_SP, rs1: REG_SP, imm: 0x4 },
                Instruction::Xor { rd: REG_A0, rs1: REG_A0, rs2: REG_A1 },
                Instruction::Sltiu { rd: REG_A0, rs1: REG_A0, imm: 0x1 },
                Instruction::Slli { rd: REG_A0, rs1: REG_A0, shamt: 31 },
                Instruction::Srai { rd: REG_A0, rs1: REG_A0, shamt: 31 },
                Instruction::Sw { rs1: REG_SP, rs2: REG_A0, imm: 0x4 },
            ],
            Primitive::Gt => seq![
                Instruction::Lw { rd: REG_A0, rs1: REG_SP, imm: 0x4 },
                Instruction::Lw { rd: REG_A1, rs1: REG_SP, imm: 0x8 },
                Instruction::Addi { rd: REG_SP, rs1: REG_SP, imm: 0x4 },
                Instruction::Slt { rd: REG_A0, rs1: REG_A0, rs2: REG_A1 },
                Instruction::Slli { rd: REG_A0, rs1: REG_A0, shamt: 31 },
                Instruction::Srai { rd: REG_A0, rs1: REG_A0, shamt: 31 },
                Instruction::Sw { rs1: REG_SP, rs2: REG_A0, imm: 0x4 },
            ],
            Primitive::Lt => seq![
                Instruction::Lw { rd: REG_A0, rs1: REG_SP, imm: 0x4 },
                Instruction::Lw { rd: REG_A1, rs1: REG_SP, imm: 0x8 },
                Instruction::Addi { rd: REG_SP, rs1: REG_SP, imm: 0x4 },
                Instruction::Slt { rd: REG_A0, rs1: REG_A1, rs2: REG_A0 },
                Instruction::Slli { rd: REG_A0, rs1: REG_A0, shamt: 31 },
                Instruction::Srai { rd: REG_A0, rs1: REG_A0, shamt: 31 },
                Instruction::Sw { rs1: REG_SP, rs2: REG_A0, imm: 0x4 },
            ],
            Primitive::Branch => seq![
                Instruction::Addi { rd: REG_SP, rs1: REG_SP, imm: 0x4 },
                Instruction::Lw { rd: REG_A0, rs1: REG_SP, imm: 0x0 },
                Instruction::Sw { rs1: REG_FP, rs2: REG_RA, imm: 0x0 },
                Instruction::Addi { rd: REG_FP, rs1: REG_FP, imm: 0xffc },
                Instruction::Jalr { rd: REG_RA, rs1: REG_A0, imm: 0x0 },
                Instruction::Addi { rd: REG_FP, rs1: REG_FP, imm: 0x4 },
                Instruction::Lw { rd: REG_RA, rs1: REG_FP, imm: 0x0 },
            ],
            Primitive::RFrom => seq![
                Instruction::Lw { rd: REG_A0, rs1: REG_FP, imm: 0x4 },
                Instruction::Addi { rd: REG_FP, rs1: REG_FP, imm: 0x4 },
                Instruction::Sw { rs1: REG_SP, rs2: REG_A0, imm: 0x0 },
                Instruction::Addi { rd: REG_SP, rs1: REG_SP, imm: 0xffc },
            ],
            Primitive::RTo => seq![
                Instruction::Lw { rd: REG_A0, rs1: REG_SP, imm: 0x4 },
                Instruction::Addi { rd: REG_SP, rs1: REG_SP, imm: 0x4 },
                Instruction::Sw { rs1: REG_FP, rs2: REG_A0, imm: 0x0 },
                Instruction::Addi { rd: REG_FP, rs1: REG_FP, imm: 0xffc },
            ],
            Primitive::Push(value) => if value < SHORT_LITERAL_BOUND {
                seq![
                    Instruction::Addi { rd: REG_A0, rs1: REG_ZERO, imm: value },
                    Instruction::Sw { rs1: REG_SP, rs2: REG_A0, imm: 0x0 },
                    Instruction::Addi { rd: REG_SP, rs1: REG_SP, imm: 0xffc },
                ]
            } else {
                seq![
                    Instruction::Lui { rd: REG_A0, imm: value >> 12 },
                    Instruction::Addi { rd: REG_A0, rs1: REG_A0, imm: value & 0xfff },
                    Instruction::Sw { rs1: REG_SP, rs2: REG_A0, imm: 0x0 },
                    Instruction::Addi { rd: REG_SP, rs1: REG_SP, imm: 0xffc },
                ]
            },
        }
    }
}

/// `primitive` is encoded by its words, instruction for instruction.
pub open spec fn encodes_listing(primitive: Primitive) -> bool {
    &&& primitive.words().len() == primitive.listing().len()
    &&& forall|i: int|
        0 <= i < primitive.words().len() ==> decode_emitted(#[trigger] primitive.words()[i]) == Some(
            primitive.listing()[i],
        )
}

proof fn lemma_listing_load()
    ensures
        encodes_listing(Primitive::Load),
{
    lemma_table_order();
    lemma_table_decodes();
    let words = Primitive::Load.words();
    let listing = Primitive::Load.listing();
    assert(decode_emitted(words[0]) == Some(listing[0]));
    assert(decode_emitted(words[1]) == Some(listing[1]));
    assert(decode_emitted(words[2]) == Some(listing[2]));
    assert(decode_emitted(words[3]) == Some(listing[3]));
}

proof fn lemma_listing_fetch()
    ensures
        encodes_listing(Primitive::Fetch),
{
    lemma_table_order();
    lemma_table_decodes();
    let words = Primitive::Fetch.words();
    let listing = Primitive::Fetch.listing();
    assert(decode_emitted(words[0]) == Some(listing[0]));
    assert(decode_emitted(words[1]) == Some(listing[1]));
    assert(decode_emitted(words[2]) == Some(listing[2]));
}

proof fn lemma_listing_l_shift()
    ensures
        encodes_listing(Primitive::LShift),
{
    lemma_table_order();
    lemma_table_decodes();
    let words = Primitive::LShift.words();
    let listing = Primitive::LShift.listing();
    assert(decode_emitted(words[0]) == Some(listing[0]));
    assert(decode_emitted(words[1]) == Some(listing[1]));
    assert(decode_emitted(words[2]) == Some(listing[2]));
    assert(decode_emitted(words[3]) == Some(listing[3]));
    assert(decode_emitted(words[4]) == Some(listing[4]));
}

proof fn lemma_listing_r_shift()
    ensures
        encodes_listing(Primitive::RShift),
{
    lemma_table_order();
    lemma_table_decodes();
    let words = Primitive::RShift.words();
    let listing = Primitive::RShift.listing();
    assert(decode_emitted(words[0]) == Some(listing[0]));
    assert(decode_emitted(words[1]) == Some(listing[1]));
    assert(decode_emitted(words[2]) == Some(listing[2]));
    assert(decode_emitted(words[3]) == Some(listing[3]));
    assert(decode_emitted(words[4]) == Some(listing[4]));
}

proof fn lemma_listing_add()
    ensures
        encodes_listing(Primitive::Add),
{
    lemma_table_order();
    lemma_table_decodes();
    let words = Primitive::Add.words();
    let listing = Primitive::Add.listing();
    assert(decode_emitted(words[0]) == Some(listing[0]));
    assert(decode_emitted(words[1]) == Some(listing[1]));
    assert(decode_emitted(words[2]) == Some(listing[2]));
    assert(decode_emitted(words[3]) == Some(listing[3]));
    assert(decode_emitted(words[4]) == Some(listing[4]));
}

proof fn lemma_listing_sub()
    ensures
        encodes_listing(Primitive::Sub),
{
    lemma_table_order();
    lemma_table_decodes();
    let words = Primitive::Sub.words();
    let listing = Primitive::Sub.listing();
    assert(decode_emitted(words[0]) == Some(listing[0]));
    assert(decode_emitted(words[1]) == Some(listing[1]));
    assert(decode_emitted(words[2]) == Some(listing[2]));
    assert(decode_emitted(words[3]) == Some(listing[3]));
    assert(decode_emitted(words[4]) == Some(listing[4]));
}

proof fn lemma_listing_and()
    ensures
        encodes_listing(Primitive::And),
{
    lemma_table_order();
    lemma_table_decodes();
    let words = Primitive::And.words();
    let listing = Primitive::And.listing();
    assert(decode_emitted(words[0]) == Some(listing[0]));
    assert(decode_emitted(words[1]) == Some(listing[1]));
    assert(decode_emitted(words[2]) == Some(listing[2]));
    assert(decode_emitted(words[3]) == Some(listing[3]));
    assert(decode_emitted(words[4]) == Some(listing[4]));
}

proof fn lemma_listing_xor()
    ensures
        encodes_listing(Primitive::Xor),
{
    lemma_table_order();
    lemma_table_decodes();
    let words = Primitive::Xor.words();
    let listing = Primitive::Xor.listing();
    assert(decode_emitted(words[0]) == Some(listing[0]));
    assert(decode_emitted(words[1]) == Some(listing[1]));
    assert(decode_emitted(words[2]) == Some(listing[2]));
    assert(decode_emitted(words[3]) == Some(listing[3]));
    assert(decode_emitted(words[4]) == Some(listing[4]));
}

proof fn lemma_listing_or()
    ensures
        encodes_listing(Primitive::Or),
{
    lemma_table_order();
    lemma_table_decodes();
    let words = Primitive::Or.words();
    let listing = Primitive::Or.listing();
    assert(decode_emitted(words[0]) == Some(listing[0]));
    assert(decode_emitted(words[1]) == Some(listing[1]));
    assert(decode_emitted(words[2]) == Some(listing[2]));
    assert(decode_emitted(words[3]) == Some(listing[3]));
    assert(decode_emitted(words[4]) == Some(listing[4]));
}

proof fn lemma_listing_eq()
    ensures
        encodes_listing(Primitive::Eq),
{
    lemma_table_order();
    lemma_table_decodes();
    let words = Primitive::Eq.words();
    let listing = Primitive::Eq.listing();
    assert(decode_emitted(words[0]) == Some(listing[0]));
    assert(decode_emitted(words[1]) == Some(listing[1]));
    assert(decode_emitted(words[2]) == Some(listing[2]));
    assert(decode_emitted(words[3]) == Some(listing[3]));
    assert(decode_emitted(words[4]) == Some(listing[4]));
    assert(decode_emitted(words[5]) == Some(listing[5]));
    assert(decode_emitted(words[6]) == Some(listing[6]));
    assert(decode_emitted(words[7]) == Some(listing[7]));
}

proof fn lemma_listing_gt()
    ensures
        encodes_listing(Primitive::Gt),
{
    lemma_table_order();
    lemma_table_decodes();
    let words = Primitive::Gt.words();
    let listing = Primitive::Gt.listing();
    assert(decode_emitted(words[0]) == Some(listing[0]));
    assert(decode_emitted(words[1]) == Some(listing[1]));
    assert(decode_emitted(words[2]) == Some(listing[2]));
    assert(decode_emitted(words[3]) == Some(listing[3]));
    assert(decode_emitted(words[4]) == Some(listing[4]));
    assert(decode_emitted(words[5]) == Some(listing[5]));
    assert(decode_emitted(words[6]) == Some(listing[6]));
}

proof fn lemma_listing_lt()
    ensures
        encodes_listing(Primitive::Lt),
{
    lemma_table_order();
    lemma_table_decodes();
    let words = Primitive::Lt.words();
    let listing = Primitive::Lt.listing();
    assert(decode_emitted(words[0]) == Some(listing[0]));
    assert(decode_emitted(words[1]) == Some(listing[1]));
    assert(decode_emitted(words[2]) == Some(listing[2]));
    assert(decode_emitted(words[3]) == Some(listing[3]));
    assert(decode_emitted(words[4]) == Some(listing[4]));
    assert(decode_emitted(words[5]) == Some(listing[5]));
    assert(decode_emitted(words[6]) == Some(listing[6]));
}

proof fn lemma_listing_branch()
    ensures
        encodes_listing(Primitive::Branch),
{
    lemma_table_order();
    lemma_table_decodes();
    let words = Primitive::Branch.words();
    let listing = Primitive::Branch.listing();
    assert(decode_emitted(words[0]) == Some(listing[0]));
    assert(decode_emitted(words[1]) == Some(listing[1]));
    assert(decode_emitted(words[2]) == Some(listing[2]));
    assert(decode_emitted(words[3]) == Some(listing[3]));
    assert(decode_emitted(words[4]) == Some(listing[4]));
    assert(decode_emitted(words[5]) == Some(listing[5]));
    assert(decode_emitted(words[6]) == Some(listing[6]));
}

proof fn lemma_listing_r_from()
    ensures
        encodes_listing(Primitive::RFrom),
{
    lemma_table_order();
    lemma_table_decodes();
    let words = Primitive::RFrom.words();
    let listing = Primitive::RFrom.listing();
    assert(decode_emitted(words[0]) == Some(listing[0]));
    assert(decode_emitted(words[1]) == Some(listing[1]));
    assert(decode_emitted(words[2]) == Some(listing[2]));
    assert(decode_emitted(words[3]) == Some(listing[3]));
}

proof fn lemma_listing_r_to()
    ensures
        encodes_listing(Primitive::RTo),
{
    lemma_table_order();
    lemma_table_decodes();
    let words = Primitive::RTo.words();
    let listing = Primitive::RTo.listing();
    assert(decode_emitted(words[0]) == Some(listing[0]));
    assert(decode_emitted(words[1]) == Some(listing[1]));
    assert(decode_emitted(words[2]) == Some(listing[2]));
    assert(decode_emitted(words[3]) == Some(listing[3]));
}

proof fn lemma_listing_push(value: u32)
    ensures
        encodes_listing(Primitive::Push(value)),
{
    lemma_table_order();
    lemma_table_decodes();
    let words = Primitive::Push(value).words();
    let listing = Primitive::Push(value).listing();
    let upper = value >> 12;
    let lower = value & 0xfff;
    assert(upper < 0x10_0000 && lower < 0x1000) by (bit_vector)
        requires
            upper == value >> 12,
            lower == value & 0xfff,
    ;
    if value < SHORT_LITERAL_BOUND {
        lemma_swap_bytes_twice(addi(REG_A0, REG_ZERO, value));
        lemma_addi_fields(addi(REG_A0, REG_ZERO, value), REG_A0, REG_ZERO, value);
        assert(decode_emitted(words[0]) == Some(listing[0]));
        assert(decode_emitted(words[1]) == Some(listing[1]));
        assert(decode_emitted(words[2]) == Some(listing[2]));
    } else {
        lemma_swap_bytes_twice(lui(REG_A0, upper));
        lemma_swap_bytes_twice(addi(REG_A0, REG_A0, lower));
        lemma_lui_fields(lui(REG_A0, upper), REG_A0, upper);
        lemma_addi_fields(addi(REG_A0, REG_A0, lower), REG_A0, REG_A0, lower);
        assert(decode_emitted(words[0]) == Some(listing[0]));
        assert(decode_emitted(words[1]) == Some(listing[1]));
        assert(decode_emitted(words[2]) == Some(listing[2]));
        assert(decode_emitted(words[3]) == Some(listing[3]));
    }
}

/// The words of every primitive are the encodings of its listing, one word
/// for each instruction.
pub proof fn theorem_words_encode_listing(primitive: Primitive)
    ensures
        encodes_listing(primitive),
{
    match primitive {
        Primitive::Load => lemma_listing_load(),
        Primitive::Fetch => lemma_listing_fetch(),
        Primitive::LShift => lemma_listing_l_shift(),
        Primitive::RShift => lemma_listing_r_shift(),
        Primitive::Add => lemma_listing_add(),
        Primitive::Sub => lemma_listing_sub(),
        Primitive::And => lemma_listing_and(),
        Primitive::Xor => lemma_listing_xor(),
        Primitive::Or => lemma_listing_or(),
        Primitive::Eq => lemma_listing_eq(),
        Primitive::Gt => lemma_listing_gt(),
        Primitive::Lt => lemma_listing_lt(),
        Primitive::Branch => lemma_listing_branch(),
        Primitive::RFrom => lemma_listing_r_from(),
        Primitive::RTo => lemma_listing_r_to(),
        Primitive::Push(value) => lemma_listing_push(value),
    }
}

/// The registers and the memory of the processor.
pub struct Machine {
    /// The 32 integer registers. `x0` is not read from here: it is always
    /// zero.
    pub registers: Seq<u32>,
    /// The cell at each address.
    pub memory: Map<u32, u32>,
}

/// The 12-bit immediate `imm` as the 32-bit number the processor takes it
/// for: its top bit is its sign.
pub open spec fn sign_extend(imm: u32) -> u32 {
    if imm >= 0x800 {
        (imm + 0xffff_f000) as u32
    } else {
        imm
    }
}

/// `a + b` modulo 2^32.
pub open spec fn plus(a: u32, b: u32) -> u32 {
    if a + b >= 0x1_0000_0000 {
        (a + b - 0x1_0000_0000) as u32
    } else {
        (a + b) as u32
    }
}

/// `a - b` modulo 2^32.
pub open spec fn minus(a: u32, b: u32) -> u32 {
    if a >= b {
        (a - b) as u32
    } else {
        (a - b + 0x1_0000_0000) as u32
    }
}

/// The number that `a` stands for as a signed, two's complement integer.
pub open spec fn signed(a: u32) -> int {
    if a >= 0x8000_0000 {
        a - 0x1_0000_0000
    } else {
        a as int
    }
}

/// `a` shifted right by `n` places, the sign bit filling in from the left.
pub open spec fn shift_right_arithmetic(a: u32, n: u32) -> u32 {
    if a >= 0x8000_0000 {
        (a >> n) | !(0xffff_ffffu32 >> n)
    } else {
        a >> n
    }
}

/// What a comparing instruction leaves: one for true, zero for false.
pub open spec fn bit(truth: bool) -> u32 {
    if truth {
        1
    } else {
        0
    }
}

/// What a comparison of the dialect leaves: all ones for true, zero for
/// false.
pub open spec fn flag(truth: bool) -> u32 {
    if truth {
        0xffff_ffff
    } else {
        0
    }
}

impl Machine {
    /// The machine has its 32 registers.
    pub open spec fn wf(self) -> bool {
        self.registers.len() == 32
    }

    /// What register `r` holds.
    pub open spec fn reg(self, r: u32) -> u32 {
        if r == 0 {
            0
        } else {
            self.registers[r as int]
        }
    }

    /// The machine with `value` in register `r`. Writing to `x0` does
    /// nothing.
    pub open spec fn set_reg(self, r: u32, value: u32) -> Machine {
        if r == 0 {
            self
        } else {
            Machine { registers: self.registers.update(r as int, value), ..self }
        }
    }

    /// What the cell at `address` holds.
    pub open spec fn load(self, address: u32) -> u32 {
        self.memory[address]
    }

    /// The machine with `value` in the cell at `address`.
    pub open spec fn store(self, address: u32, value: u32) -> Machine {
        Machine { memory: self.memory.insert(address, value), ..self }
    }

    /// The machine after one instruction; `None` for `jalr`, which goes on
    /// somewhere else.
    pub open spec fn execute(self, instruction: Instruction) -> Option<Machine> {
        match instruction {
            Instruction::Lui { rd, imm } => Some(self.set_reg(rd, imm << 12)),
            Instruction::Jalr { .. } => None,
            Instruction::Lw { rd, rs1, imm } => Some(
                self.set_reg(rd, self.load(plus(self.reg(rs1), sign_extend(imm)))),
            ),
            Instruction::Sw { rs1, rs2, imm } => Some(
                self.store(plus(self.reg(rs1), sign_extend(imm)), self.reg(rs2)),
            ),
            Instruction::Addi { rd, rs1, imm } => Some(
                self.set_reg(rd, plus(self.reg(rs1), sign_extend(imm))),
            ),
            Instruction::Sltiu { rd, rs1, imm } => Some(
                self.set_reg(rd, bit(self.reg(rs1) < sign_extend(imm))),
            ),
            Instruction::Slli { rd, rs1, shamt } => Some(self.set_reg(rd, self.reg(rs1) << shamt)),
            Instruction::Srai { rd, rs1, shamt } => Some(
                self.set_reg(rd, shift_right_arithmetic(self.reg(rs1), shamt)),
            ),
            Instruction::Add { rd, rs1, rs2 } => Some(
                self.set_reg(rd, plus(self.reg(rs1), self.reg(rs2))),
            ),
            Instruction::Sub { rd, rs1, rs2 } => Some(
                self.set_reg(rd, minus(self.reg(rs1), self.reg(rs2))),
            ),
            Instruction::Sll { rd, rs1, rs2 } => Some(
                self.set_reg(rd, self.reg(rs1) << (self.reg(rs2) & 31)),
            ),
            Instruction::Slt { rd, rs1, rs2 } => Some(
                self.set_reg(rd, bit(signed(self.reg(rs1)) < signed(self.reg(rs2)))),
            ),
            Instruction::Xor { rd, rs1, rs2 } => Some(self.set_reg(rd, self.reg(rs1) ^ self.reg(rs2))),
            Instruction::Srl { rd, rs1, rs2 } => Some(
                self.set_reg(rd, self.reg(rs1) >> (self.reg(rs2) & 31)),
            ),
            Instruction::Or { rd, rs1, rs2 } => Some(self.set_reg(rd, self.reg(rs1) | self.reg(rs2))),
            Instruction::And { rd, rs1, rs2 } => Some(self.set_reg(rd, self.reg(rs1) & self.reg(rs2))),
        }
    }

    /// The machine after the instructions of `program` from the `i`-th on,
    /// one after another.
    pub open spec fn run_from(self, program: Seq<Instruction>, i: int) -> Option<Machine>
        decreases program.len() - i,
    {
        if i < 0 || i >= program.len() {
            Some(self)
        } else {
            match self.execute(program[i]) {
                Some(next) => next.run_from(program, i + 1),
                None => None,
            }
        }
    }

    /// The machine after `program`.
    pub open spec fn run(self, program: Seq<Instruction>) -> Option<Machine> {
        self.run_from(program, 0)
    }

    /// The machine after the emitted words `words` from the `i`-th on;
    /// `None` if one of them is no instruction that `execute` knows.
    pub open spec fn run_words_from(self, words: Seq<u32>, i: int) -> Option<Machine>
        decreases words.len() - i,
    {
        if i < 0 || i >= words.len() {
            Some(self)
        } else {
            match decode_emitted(words[i]) {
                Some(instruction) => match self.execute(instruction) {
                    Some(next) => next.run_words_from(words, i + 1),
                    None => None,
                },
                None => None,
            }
        }
    }

    /// The machine after the emitted words `words`.
    pub open spec fn run_words(self, words: Seq<u32>) -> Option<Machine> {
        self.run_words_from(words, 0)
    }
}

/// Running the words of a primitive is running its listing.
pub proof fn lemma_run_words_is_run_listing(machine: Machine, primitive: Primitive, i: int)
    requires
        0 <= i,
    ensures
        machine.run_words_from(primitive.words(), i) == machine.run_from(primitive.listing(), i),
    decreases primitive.words().len() - i,
{
    theorem_words_encode_listing(primitive);
    if i < primitive.words().len() {
        assert(decode_emitted(primitive.words()[i]) == Some(primitive.listing()[i]));
        if let Some(next) = machine.execute(primitive.listing()[i]) {
            lemma_run_words_is_run_listing(next, primitive, i + 1);
        }
    }
}

proof fn lemma_flag_bits(a: u32, b: u32)
    by (bit_vector)
    ensures
        (a ^ b == 0) <==> a == b,
        1u32 << 31u32 == 0x8000_0000u32,
        0u32 << 31u32 == 0u32,
        (0x8000_0000u32 >> 31u32) | !(0xffff_ffffu32 >> 31u32) == 0xffff_ffffu32,
        0u32 >> 31u32 == 0u32,
{
}

/// What the instructions of a comparison do.
///
/// They take the top cell `4(sp)` and the cell under it `8(sp)` and leave one
/// cell in the place of the lower: a flag, all ones if the comparison holds,
/// zero if it does not, and never anything else. `=` holds when the two
/// cells are equal, `<` when the lower cell is less than the top cell as
/// signed numbers, `>` when it is greater. No other cell changes, and no
/// register but `sp`, `a0` and `a1`.
pub proof fn theorem_comparison(machine: Machine, primitive: Primitive)
    requires
        machine.wf(),
        primitive == Primitive::Eq || primitive == Primitive::Lt || primitive == Primitive::Gt,
    ensures
        ({
            let sp = machine.reg(REG_SP);
            let top = machine.load(plus(sp, 4));
            let under = machine.load(plus(sp, 8));
            let target = plus(sp, 8);
            let holds = match primitive {
                Primitive::Eq => under == top,
                Primitive::Lt => signed(under) < signed(top),
                _ => signed(under) > signed(top),
            };
            &&& machine.run_words(primitive.words()) matches Some(after)
            &&& after.wf()
            &&& after.reg(REG_SP) == plus(sp, 4)
            &&& after.load(target) == flag(holds)
            &&& (after.load(target) == 0xffff_ffffu32 || after.load(target) == 0u32)
            &&& forall|address: u32| address != target ==> after.load(address) == machine.load(address)
            &&& forall|r: u32|
                r < 32 && r != REG_SP && r != REG_A0 && r != REG_A1 ==> after.reg(r) == machine.reg(r)
        }),
{
    lemma_run_words_is_run_listing(machine, primitive, 0);
    let sp = machine.reg(REG_SP);
    let top = machine.load(plus(sp, 4));
    let under = machine.load(plus(sp, 8));
    lemma_flag_bits(top, under);
    let m1 = machine.set_reg(REG_A0, top);
    let m2 = m1.set_reg(REG_A1, under);
    let m3 = m2.set_reg(REG_SP, plus(sp, 4));
    let program = primitive.listing();
    assert(machine.execute(program[0]) == Some(m1));
    assert(m1.execute(program[1]) == Some(m2));
    assert(m2.execute(program[2]) == Some(m3));
    if primitive == Primitive::Eq {
        let same = top == under;
        let m4 = m3.set_reg(REG_A0, top ^ under);
        let m5 = m4.set_reg(REG_A0, bit(same));
        let m6 = m5.set_reg(REG_A0, bit(same) << 31u32);
        let m7 = m6.set_reg(REG_A0, flag(same));
        let m8 = m7.store(plus(sp, 8), flag(same));
        assert(m3.execute(program[3]) == Some(m4));
        assert(m4.execute(program[4]) == Some(m5));
        assert(m5.execute(program[5]) == Some(m6));
        assert(m6.execute(program[6]) == Some(m7));
        assert(m7.execute(program[7]) == Some(m8));
        assert(machine.run(program) == Some(m8)) by {
            reveal_with_fuel(Machine::run_from, 9);
        }
    } else {
        let holds = if primitive == Primitive::Lt {
            signed(under) < signed(top)
        } else {
            signed(top) < signed(under)
        };
        let m4 = m3.set_reg(REG_A0, bit(holds));
        let m5 = m4.set_reg(REG_A0, bit(holds) << 31u32);
        let m6 = m5.set_reg(REG_A0, flag(holds));
        let m7 = m6.store(plus(sp, 8), flag(holds));
        assert(m3.execute(program[3]) == Some(m4));
        assert(m4.execute(program[4]) == Some(m5));
        assert(m5.execute(program[5]) == Some(m6));
        assert(m6.execute(program[6]) == Some(m7));
        assert(machine.run(program) == Some(m7)) by {
            reveal_with_fuel(Machine::run_from, 8);
        }
    }
}

/// What a primitive with two operands leaves for the lower cell `under` and
/// the top cell `top`. The top cell is the one taken first: it is what is
/// subtracted, and the amount of a shift.
pub open spec fn binary_result(primitive: Primitive, under: u32, top: u32) -> u32 {
    match primitive {
        Primitive::Add => plus(under, top),
        Primitive::Sub => minus(under, top),
        Primitive::And => under & top,
        Primitive::Or => under | top,
        Primitive::Xor => under ^ top,
        Primitive::LShift => under << (top & 31),
        _ => under >> (top & 31),
    }
}

/// What the instructions of an arithmetic, bitwise or shifting primitive do:
/// they take the two top cells and leave one, the result, in the place of
/// the lower. No other cell changes, and no register but `sp`, `a0` and
/// `a1`.
pub proof fn theorem_binary(machine: Machine, primitive: Primitive)
    requires
        machine.wf(),
        primitive == Primitive::Add || primitive == Primitive::Sub || primitive == Primitive::And
            || primitive == Primitive::Or || primitive == Primitive::Xor || primitive
            == Primitive::LShift || primitive == Primitive::RShift,
    ensures
        ({
            let sp = machine.reg(REG_SP);
            let top = machine.load(plus(sp, 4));
            let under = machine.load(plus(sp, 8));
            &&& machine.run_words(primitive.words()) matches Some(after)
            &&& after.wf()
            &&& after.reg(REG_SP) == plus(sp, 4)
            &&& after.load(plus(sp, 8)) == binary_result(primitive, under, top)
            &&& forall|address: u32|
                address != plus(sp, 8) ==> after.load(address) == machine.load(address)
            &&& forall|r: u32|
                r < 32 && r != REG_SP && r != REG_A0 && r != REG_A1 ==> after.reg(r) == machine.reg(r)
        }),
{
    lemma_run_words_is_run_listing(machine, primitive, 0);
    let sp = machine.reg(REG_SP);
    let top = machine.load(plus(sp, 4));
    let under = machine.load(plus(sp, 8));
    let result = binary_result(primitive, under, top);
    let program = primitive.listing();
    let m1 = machine.set_reg(REG_A0, top);
    let m2 = m1.set_reg(REG_A1, under);
    let m3 = m2.set_reg(REG_A0, result);
    let m4 = m3.set_reg(REG_SP, plus(sp, 4));
    let m5 = m4.store(plus(sp, 8), result);
    assert(machine.execute(program[0]) == Some(m1));
    assert(m1.execute(program[1]) == Some(m2));
    assert(m2.execute(program[2]) == Some(m3));
    assert(m3.execute(program[3]) == Some(m4));
    assert(m4.execute(program[4]) == Some(m5));
    assert(machine.run(program) == Some(m5)) by {
        reveal_with_fuel(Machine::run_from, 6);
    }
}

/// What the instructions of `@` do: the address on top of the stack is
/// replaced by the cell it points at. Nothing else in memory changes, and no
/// register but `a0`.
pub proof fn theorem_fetch(machine: Machine)
    requires
        machine.wf(),
    ensures
        ({
            let sp = machine.reg(REG_SP);
            let address = machine.load(plus(sp, 4));
            &&& machine.run_words(Primitive::Fetch.words()) matches Some(after)
            &&& after.wf()
            &&& after.load(plus(sp, 4)) == machine.load(address)
            &&& forall|other: u32| other != plus(sp, 4) ==> after.load(other) == machine.load(other)
            &&& forall|r: u32| r < 32 && r != REG_A0 ==> after.reg(r) == machine.reg(r)
        }),
{
    lemma_run_words_is_run_listing(machine, Primitive::Fetch, 0);
    let sp = machine.reg(REG_SP);
    let address = machine.load(plus(sp, 4));
    let program = Primitive::Fetch.listing();
    let m1 = machine.set_reg(REG_A0, address);
    let m2 = m1.set_reg(REG_A0, machine.load(address));
    let m3 = m2.store(plus(sp, 4), machine.load(address));
    assert(machine.execute(program[0]) == Some(m1));
    assert(m1.execute(program[1]) == Some(m2));
    assert(m2.execute(program[2]) == Some(m3));
    assert(machine.run(program) == Some(m3)) by {
        reveal_with_fuel(Machine::run_from, 4);
    }
}

/// What the instructions of `!` do: they take the address on top of the
/// stack and the value under it, and store the value at the address.
/// Nothing else in memory changes, and no register but `sp`, `a0` and `a1`.
pub proof fn theorem_store(machine: Machine)
    requires
        machine.wf(),
    ensures
        ({
            let sp = machine.reg(REG_SP);
            let address = machine.load(plus(sp, 4));
            let value = machine.load(plus(sp, 8));
            &&& machine.run_words(Primitive::Load.words()) matches Some(after)
            &&& after.wf()
            &&& after.reg(REG_SP) == plus(sp, 8)
            &&& after.load(address) == value
            &&& forall|other: u32| other != address ==> after.load(other) == machine.load(other)
            &&& forall|r: u32|
                r < 32 && r != REG_SP && r != REG_A0 && r != REG_A1 ==> after.reg(r) == machine.reg(r)
        }),
{
    lemma_run_words_is_run_listing(machine, Primitive::Load, 0);
    let sp = machine.reg(REG_SP);
    let address = machine.load(plus(sp, 4));
    let value = machine.load(plus(sp, 8));
    let program = Primitive::Load.listing();
    let m1 = machine.set_reg(REG_A0, address);
    let m2 = m1.set_reg(REG_A1, value);
    let m3 = m2.set_reg(REG_SP, plus(sp, 8));
    let m4 = m3.store(address, value);
    assert(machine.execute(program[0]) == Some(m1));
    assert(m1.execute(program[1]) == Some(m2));
    assert(m2.execute(program[2]) == Some(m3));
    assert(m3.execute(program[3]) == Some(m4));
    assert(machine.run(program) == Some(m4)) by {
        reveal_with_fuel(Machine::run_from, 5);
    }
}

/// What the instructions of `R<` do: the top cell of the operand stack moves
/// to the free cell of the return stack, and both stack pointers move by one
/// cell.
pub proof fn theorem_to_return_stack(machine: Machine)
    requires
        machine.wf(),
    ensures
        ({
            let sp = machine.reg(REG_SP);
            let fp = machine.reg(REG_FP);
            &&& machine.run_words(Primitive::RTo.words()) matches Some(after)
            &&& after.wf()
            &&& after.reg(REG_SP) == plus(sp, 4)
            &&& after.reg(REG_FP) == minus(fp, 4)
            &&& after.load(fp) == machine.load(plus(sp, 4))
            &&& forall|other: u32| other != fp ==> after.load(other) == machine.load(other)
            &&& forall|r: u32|
                r < 32 && r != REG_SP && r != REG_FP && r != REG_A0 ==> after.reg(r) == machine.reg(r)
        }),
{
    lemma_run_words_is_run_listing(machine, Primitive::RTo, 0);
    let sp = machine.reg(REG_SP);
    let fp = machine.reg(REG_FP);
    let top = machine.load(plus(sp, 4));
    let program = Primitive::RTo.listing();
    let m1 = machine.set_reg(REG_A0, top);
    let m2 = m1.set_reg(REG_SP, plus(sp, 4));
    let m3 = m2.store(fp, top);
    let m4 = m3.set_reg(REG_FP, minus(fp, 4));
    assert(machine.execute(program[0]) == Some(m1));
    assert(m1.execute(program[1]) == Some(m2));
    assert(m2.execute(program[2]) == Some(m3));
    assert(m3.execute(program[3]) == Some(m4));
    assert(machine.run(program) == Some(m4)) by {
        reveal_with_fuel(Machine::run_from, 5);
    }
}

/// What the instructions of `R>` do: the top cell of the return stack moves
/// to the free cell of the operand stack, and both stack pointers move by
/// one cell.
pub proof fn theorem_from_return_stack(machine: Machine)
    requires
        machine.wf(),
    ensures
        ({
            let sp = machine.reg(REG_SP);
            let fp = machine.reg(REG_FP);
            &&& machine.run_words(Primitive::RFrom.words()) matches Some(after)
            &&& after.wf()
            &&& after.reg(REG_SP) == minus(sp, 4)
            &&& after.reg(REG_FP) == plus(fp, 4)
            &&& after.load(sp) == machine.load(plus(fp, 4))
            &&& forall|other: u32| other != sp ==> after.load(other) == machine.load(other)
            &&& forall|r: u32|
                r < 32 && r != REG_SP && r != REG_FP && r != REG_A0 ==> after.reg(r) == machine.reg(r)
        }),
{
    lemma_run_words_is_run_listing(machine, Primitive::RFrom, 0);
    let sp = machine.reg(REG_SP);
    let fp = machine.reg(REG_FP);
    let top = machine.load(plus(fp, 4));
    let program = Primitive::RFrom.listing();
    let m1 = machine.set_reg(REG_A0, top);
    let m2 = m1.set_reg(REG_FP, plus(fp, 4));
    let m3 = m2.store(sp, top);
    let m4 = m3.set_reg(REG_SP, minus(sp, 4));
    assert(machine.execute(program[0]) == Some(m1));
    assert(m1.execute(program[1]) == Some(m2));
    assert(m2.execute(program[2]) == Some(m3));
    assert(m3.execute(program[3]) == Some(m4));
    assert(machine.run(program) == Some(m4)) by {
        reveal_with_fuel(Machine::run_from, 5);
    }
}

/// The cell that the instructions of a literal push. The processor takes the
/// 12-bit immediate of `addi` as a signed number, so a literal whose bit 11
/// is set comes out `0x1000` too small, modulo 2^32; every other literal is
/// pushed as itself.
pub open spec fn pushed_cell(value: u32) -> u32 {
    if value < SHORT_LITERAL_BOUND {
        sign_extend(value)
    } else {
        plus((value >> 12) << 12, sign_extend(value & 0xfff))
    }
}

/// What the instructions of a literal do: they store `pushed_cell` in the
/// free cell of the operand stack and move `sp` down by one cell. Nothing
/// else in memory changes, and no register but `sp` and `a0`.
pub proof fn theorem_push(machine: Machine, value: u32)
    requires
        machine.wf(),
    ensures
        ({
            let sp = machine.reg(REG_SP);
            &&& machine.run_words(Primitive::Push(value).words()) matches Some(after)
            &&& after.wf()
            &&& after.reg(REG_SP) == minus(sp, 4)
            &&& after.load(sp) == pushed_cell(value)
            &&& forall|other: u32| other != sp ==> after.load(other) == machine.load(other)
            &&& forall|r: u32| r < 32 && r != REG_SP && r != REG_A0 ==> after.reg(r) == machine.reg(r)
        }),
        pushed_cell(value) == value <==> value & 0x800 == 0,
        value & 0x800 != 0 ==> pushed_cell(value) == minus(value, 0x1000),
{
    let primitive = Primitive::Push(value);
    lemma_run_words_is_run_listing(machine, primitive, 0);
    let sp = machine.reg(REG_SP);
    let program = primitive.listing();
    let lower = value & 0xfff;
    let upper = (value >> 12) << 12;
    let bit11 = value & 0x800;
    assert(lower < 0x1000 && upper + lower == value && (bit11 == 0 <==> lower < 0x800) && (value
        < 0x1000 ==> lower == value)) by (bit_vector)
        requires
            lower == value & 0xfff,
            upper == (value >> 12) << 12,
            bit11 == value & 0x800,
    ;
    if value < SHORT_LITERAL_BOUND {
        let m1 = machine.set_reg(REG_A0, sign_extend(value));
        let m2 = m1.store(sp, sign_extend(value));
        let m3 = m2.set_reg(REG_SP, minus(sp, 4));
        assert(machine.execute(program[0]) == Some(m1));
        assert(m1.execute(program[1]) == Some(m2));
        assert(m2.execute(program[2]) == Some(m3));
        assert(machine.run(program) == Some(m3)) by {
            reveal_with_fuel(Machine::run_from, 4);
        }
    } else {
        let m1 = machine.set_reg(REG_A0, upper);
        let m2 = m1.set_reg(REG_A0, plus(upper, sign_extend(lower)));
        let m3 = m2.store(sp, plus(upper, sign_extend(lower)));
        let m4 = m3.set_reg(REG_SP, minus(sp, 4));
        assert(machine.execute(program[0]) == Some(m1));
        assert(m1.execute(program[1]) == Some(m2));
        assert(m2.execute(program[2]) == Some(m3));
        assert(m3.execute(program[3]) == Some(m4));
        assert(machine.run(program) == Some(m4)) by {
            reveal_with_fuel(Machine::run_from, 5);
        }
    }
}

} // verus!
