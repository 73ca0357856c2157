//! The internal 64-bit form of a decoded instruction, as `ckb_vm_definitions`
//! documents it, and the accessors the decoder needs on it.
//!
//! ```text
//! +-----+-----+-----+-----+-----+-----+-----+-----+
//! |           | rs2 | rs1 | flg | op2 | rd  | op  | R-type
//! |     | rs3 | rs2 | rs1 | flg | op2 | rd  | op  | R4-type
//! |    immediate    | rs1 | flg | op2 | rd  | op  | I-type
//! |       immediate       | flg | op2 | rd  | op  | U-type
//! +-----+-----+-----+-----+-----+-----+-----+-----+
//! ```
//!
//! The low four bits of `flg` hold the length of the original instruction
//! in bytes, divided by two.
use vstd::prelude::*;

pub use ckb_vm_definitions::instructions::{Instruction, InstructionOpcode};

verus! {

/// Index of a general purpose register.
pub type RegisterIndex = usize;

/// Turns the raw bits of one RISC-V instruction into the internal form, or
/// reports that it does not recognise them.
///
/// A factory is a function of the bits and the VM version alone:
/// `spec_decode` says what it gives.
pub trait InstructionFactory {
    /// What `decode` gives for these bits under this VM version.
    spec fn spec_decode(&self, instruction_bits: u32, version: u32) -> Option<Instruction>;

    /// Decodes `instruction_bits` under VM `version`.
    fn decode(&self, instruction_bits: u32, version: u32) -> (r: Option<Instruction>)
        ensures
            r == self.spec_decode(instruction_bits, version),
    ;
}

/// The opcode stored in `op` (low byte) and `op2` (high byte).
pub open spec fn opcode_of(i: u64) -> u16 {
    (((i >> 8u64) & 0xff00u64) | (i & 0xffu64)) as u16
}

/// The length in bytes recorded in the `flg` byte.
pub open spec fn length_of(i: u64) -> u8 {
    (((i >> 24u64) & 0x0fu64) << 1u64) as u8
}

/// `i` with the length field of `flg` replaced by `n / 2` (four bits).
pub open spec fn with_length(i: u64, n: u8) -> u64 {
    (i & 0xffff_ffff_f0ff_ffffu64) | ((((n as u64) >> 1u64) & 0x0fu64) << 24u64)
}

/// The `rd` byte.
pub open spec fn rd_of(i: u64) -> usize {
    ((i >> 8u64) & 0xffu64) as usize
}

/// The `rs1` byte.
pub open spec fn rs1_of(i: u64) -> usize {
    ((i >> 32u64) & 0xffu64) as usize
}

/// The `rs2` byte.
pub open spec fn rs2_of(i: u64) -> usize {
    ((i >> 40u64) & 0xffu64) as usize
}

/// The `rs3` byte.
pub open spec fn rs3_of(i: u64) -> usize {
    ((i >> 48u64) & 0xffu64) as usize
}

/// The sign-extended 24-bit immediate of an I-type instruction.
pub open spec fn itype_immediate(i: u64) -> i32 {
    ((i as i64) >> 40u64) as i32
}

/// The 32-bit immediate of a U-type instruction.
pub open spec fn utype_immediate(i: u64) -> i32 {
    ((i as i64) >> 32u64) as i32
}

/// An opcode placed in the `op` and `op2` bytes.
pub open spec fn encode_opcode(op: u16) -> u64 {
    (((op as u64) >> 8u64) << 16u64) | ((op as u64) & 0xffu64)
}

/// An R-type instruction with length field zero.
pub open spec fn encode_rtype(op: u16, rd: usize, rs1: usize, rs2: usize) -> u64 {
    encode_opcode(op) | (((rd as u64) & 0xffu64) << 8u64) | (((rs1 as u64) & 0xffu64) << 32u64)
        | (((rs2 as u64) & 0xffu64) << 40u64)
}

/// An R4-type instruction with length field zero.
pub open spec fn encode_r4type(op: u16, rd: usize, rs1: usize, rs2: usize, rs3: usize) -> u64 {
    encode_rtype(op, rd, rs1, rs2) | (((rs3 as u64) & 0xffu64) << 48u64)
}

/// A U-type instruction with length field zero.
pub open spec fn encode_utype(op: u16, rd: usize, imm: i32) -> u64 {
    encode_opcode(op) | (((rd as u64) & 0xffu64) << 8u64) | (((imm as u32) as u64) << 32u64)
}

/// Reads the opcode of a decoded instruction.
pub fn extract_opcode(i: Instruction) -> (r: InstructionOpcode)
    ensures
        r == opcode_of(i),
{
    (((i >> 8) & 0xff00) | (i & 0xff)) as u16
}

/// Reads the length in bytes of the original instruction.
pub fn instruction_length(i: Instruction) -> (r: u8)
    ensures
        r == length_of(i),
{
    (((i >> 24) & 0x0f) << 1) as u8
}

/// Records `n` as the length of the original instruction(s).
pub fn set_instruction_length_n(i: Instruction, n: u8) -> (r: Instruction)
    ensures
        r == with_length(i, n),
{
    (i & 0xffff_ffff_f0ff_ffff) | ((((n as u64) >> 1) & 0x0f) << 24)
}

/// Places an opcode in the `op` and `op2` bytes.
fn opcode_bits(op: InstructionOpcode) -> (r: u64)
    ensures
        r == encode_opcode(op),
{
    (((op as u64) >> 8) << 16) | ((op as u64) & 0xff)
}

/// View of an instruction as R-type.
pub struct Rtype(pub Instruction);

impl Rtype {
    pub fn new(op: InstructionOpcode, rd: RegisterIndex, rs1: RegisterIndex, rs2: RegisterIndex) -> (r:
        Rtype)
        ensures
            r.0 == encode_rtype(op, rd, rs1, rs2),
    {
        Rtype(
            opcode_bits(op) | (((rd as u64) & 0xff) << 8) | (((rs1 as u64) & 0xff) << 32) | (((
            rs2 as u64) & 0xff) << 40),
        )
    }

    pub fn rd(&self) -> (r: RegisterIndex)
        ensures
            r == rd_of(self.0),
    {
        ((self.0 >> 8) & 0xff) as usize
    }

    pub fn rs1(&self) -> (r: RegisterIndex)
        ensures
            r == rs1_of(self.0),
    {
        ((self.0 >> 32) & 0xff) as usize
    }

    pub fn rs2(&self) -> (r: RegisterIndex)
        ensures
            r == rs2_of(self.0),
    {
        ((self.0 >> 40) & 0xff) as usize
    }
}

/// View of an instruction as R4-type.
pub struct R4type(pub Instruction);

impl R4type {
    pub fn new(
        op: InstructionOpcode,
        rd: RegisterIndex,
        rs1: RegisterIndex,
        rs2: RegisterIndex,
        rs3: RegisterIndex,
    ) -> (r: R4type)
        ensures
            r.0 == encode_r4type(op, rd, rs1, rs2, rs3),
    {
        let base = Rtype::new(op, rd, rs1, rs2);
        R4type(base.0 | (((rs3 as u64) & 0xff) << 48))
    }
}

/// View of an instruction as I-type.
pub struct Itype(pub Instruction);

impl Itype {
    pub fn rd(&self) -> (r: RegisterIndex)
        ensures
            r == rd_of(self.0),
    {
        ((self.0 >> 8) & 0xff) as usize
    }

    pub fn rs1(&self) -> (r: RegisterIndex)
        ensures
            r == rs1_of(self.0),
    {
        ((self.0 >> 32) & 0xff) as usize
    }

    pub fn immediate_s(&self) -> (r: i32)
        ensures
            r == itype_immediate(self.0),
    {
        ((self.0 as i64) >> 40) as i32
    }
}

/// View of an instruction as U-type.
pub struct Utype(pub Instruction);

impl Utype {
    pub fn new_s(op: InstructionOpcode, rd: RegisterIndex, immediate_s: i32) -> (r: Utype)
        ensures
            r.0 == encode_utype(op, rd, immediate_s),
    {
        Utype(opcode_bits(op) | (((rd as u64) & 0xff) << 8) | (((immediate_s as u32) as u64) << 32))
    }

    pub fn rd(&self) -> (r: RegisterIndex)
        ensures
            r == rd_of(self.0),
    {
        ((self.0 >> 8) & 0xff) as usize
    }

    pub fn immediate_s(&self) -> (r: i32)
        ensures
            r == utype_immediate(self.0),
    {
        ((self.0 as i64) >> 32) as i32
    }
}

/// The fields of an encoded R4-type instruction read back as encoded, and
/// its length field is zero; an R-type instruction is the case `rs3 == 0`.
pub proof fn lemma_r4type_fields(op: u16, rd: usize, rs1: usize, rs2: usize, rs3: usize)
    requires
        rd < 256,
        rs1 < 256,
        rs2 < 256,
        rs3 < 256,
    ensures
        encode_r4type(op, rd, rs1, rs2, 0) == encode_rtype(op, rd, rs1, rs2),
        opcode_of(encode_r4type(op, rd, rs1, rs2, rs3)) == op,
        rd_of(encode_r4type(op, rd, rs1, rs2, rs3)) == rd,
        rs1_of(encode_r4type(op, rd, rs1, rs2, rs3)) == rs1,
        rs2_of(encode_r4type(op, rd, rs1, rs2, rs3)) == rs2,
        rs3_of(encode_r4type(op, rd, rs1, rs2, rs3)) == rs3,
        length_of(encode_r4type(op, rd, rs1, rs2, rs3)) == 0,
{
    let e = encode_r4type(op, rd, rs1, rs2, rs3);
    assert(encode_r4type(op, rd, rs1, rs2, 0) == encode_rtype(op, rd, rs1, rs2)) by (bit_vector);
    assert(opcode_of(e) == op) by (bit_vector)
        requires
            e == encode_r4type(op, rd, rs1, rs2, rs3),
    ;
    assert(rd_of(e) == rd && rs1_of(e) == rs1 && rs2_of(e) == rs2 && rs3_of(e) == rs3) by (bit_vector)
        requires
            e == encode_r4type(op, rd, rs1, rs2, rs3),
            rd < 256,
            rs1 < 256,
            rs2 < 256,
            rs3 < 256,
    ;
    assert(length_of(e) == 0) by (bit_vector)
        requires
            e == encode_r4type(op, rd, rs1, rs2, rs3),
    ;
}

/// The fields of an encoded U-type instruction read back as encoded, and its
/// length field is zero.
pub proof fn lemma_utype_fields(op: u16, rd: usize, imm: i32)
    requires
        rd < 256,
    ensures
        opcode_of(encode_utype(op, rd, imm)) == op,
        rd_of(encode_utype(op, rd, imm)) == rd,
        utype_immediate(encode_utype(op, rd, imm)) == imm,
        length_of(encode_utype(op, rd, imm)) == 0,
{
    let e = encode_utype(op, rd, imm);
    assert(opcode_of(e) == op && length_of(e) == 0) by (bit_vector)
        requires
            e == encode_utype(op, rd, imm),
    ;
    assert(rd_of(e) == rd) by (bit_vector)
        requires
            e == encode_utype(op, rd, imm),
            rd < 256,
    ;
    assert(utype_immediate(e) == imm) by (bit_vector)
        requires
            e == encode_utype(op, rd, imm),
    ;
}

/// Setting the length of an instruction records an even length up to 30
/// exactly, and leaves every other bit (opcode, registers, immediates) as
/// it was.
pub proof fn lemma_with_length(i: u64, n: u8)
    requires
        n % 2 == 0,
        n <= 30,
    ensures
        length_of(with_length(i, n)) == n,
        with_length(i, n) & 0xffff_ffff_f0ff_ffffu64 == i & 0xffff_ffff_f0ff_ffffu64,
        opcode_of(with_length(i, n)) == opcode_of(i),
        rd_of(with_length(i, n)) == rd_of(i),
        rs1_of(with_length(i, n)) == rs1_of(i),
        rs2_of(with_length(i, n)) == rs2_of(i),
        rs3_of(with_length(i, n)) == rs3_of(i),
        itype_immediate(with_length(i, n)) == itype_immediate(i),
        utype_immediate(with_length(i, n)) == utype_immediate(i),
{
    let w = with_length(i, n);
    assert(length_of(w) == n) by (bit_vector)
        requires
            w == with_length(i, n),
            n % 2 == 0,
            n <= 30,
    ;
    assert(w & 0xffff_ffff_f0ff_ffffu64 == i & 0xffff_ffff_f0ff_ffffu64) by (bit_vector)
        requires
            w == with_length(i, n),
    ;
    assert(opcode_of(w) == opcode_of(i) && rd_of(w) == rd_of(i) && rs1_of(w) == rs1_of(i)
        && rs2_of(w) == rs2_of(i) && rs3_of(w) == rs3_of(i)) by (bit_vector)
        requires
            w == with_length(i, n),
    ;
    assert(itype_immediate(w) == itype_immediate(i) && utype_immediate(w) == utype_immediate(i))
        by (bit_vector)
        requires
            w == with_length(i, n),
    ;
}

/// Every register field is a byte.
pub proof fn lemma_field_bounds(i: u64)
    ensures
        rd_of(i) < 256,
        rs1_of(i) < 256,
        rs2_of(i) < 256,
        rs3_of(i) < 256,
{
    assert(rd_of(i) < 256 && rs1_of(i) < 256 && rs2_of(i) < 256 && rs3_of(i) < 256) by (bit_vector);
}

/// Setting the length of an instruction keeps its opcode, whatever the
/// length.
pub proof fn lemma_with_length_opcode(i: u64, n: u8)
    ensures
        opcode_of(with_length(i, n)) == opcode_of(i),
{
    let w = with_length(i, n);
    assert(opcode_of(w) == opcode_of(i)) by (bit_vector)
        requires
            w == with_length(i, n),
    ;
}

} // verus!
