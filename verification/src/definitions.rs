//! The values this library takes from `ckb_vm_definitions`: memory limits,
//! ISA flags, register names and instruction opcodes.
//!
//! Each value is read through a small function whose body returns the
//! constant of `ckb_vm_definitions` 0.24 and whose contract states the value
//! that crate gives it; these contracts are taken as given.
use vstd::prelude::*;

use ckb_vm_definitions::instructions as insts;
use ckb_vm_definitions::registers;

verus! {

/// `ckb_vm_definitions::RISCV_MAX_MEMORY`: the crate defines it as `4 << 20`.
#[verifier::external_body]
pub(crate) fn riscv_max_memory() -> (r: usize)
    ensures
        r == 0x40_0000,
{
    ckb_vm_definitions::RISCV_MAX_MEMORY
}

/// `ckb_vm_definitions::RISCV_PAGESIZE`: the crate defines it as `1 << 12`.
#[verifier::external_body]
pub(crate) fn riscv_pagesize() -> (r: usize)
    ensures
        r == 0x1000,
{
    ckb_vm_definitions::RISCV_PAGESIZE
}

/// `ckb_vm_definitions::ISA_B`: the crate defines it as `0b0000_0001`.
#[verifier::external_body]
pub(crate) fn isa_b() -> (r: u8)
    ensures
        r == 1,
{
    ckb_vm_definitions::ISA_B
}

/// `ckb_vm_definitions::ISA_MOP`: the crate defines it as `0b0000_0010`.
#[verifier::external_body]
pub(crate) fn isa_mop() -> (r: u8)
    ensures
        r == 2,
{
    ckb_vm_definitions::ISA_MOP
}

/// `ckb_vm_definitions::registers::ZERO`: the crate defines it as `0`.
#[verifier::external_body]
pub(crate) fn reg_zero() -> (r: usize)
    ensures
        r == 0,
{
    registers::ZERO
}

/// `ckb_vm_definitions::registers::RA`: the crate defines it as `1`.
#[verifier::external_body]
pub(crate) fn reg_ra() -> (r: usize)
    ensures
        r == 1,
{
    registers::RA
}

/// `ckb_vm_definitions::instructions::OP_ADD`: the crate defines it as `0x11`.
#[verifier::external_body]
pub(crate) fn op_add() -> (r: u16)
    ensures
        r == 0x11,
{
    insts::OP_ADD
}

/// `ckb_vm_definitions::instructions::OP_ADDIW`: the crate defines it as `0x13`.
#[verifier::external_body]
pub(crate) fn op_addiw() -> (r: u16)
    ensures
        r == 0x13,
{
    insts::OP_ADDIW
}

/// `ckb_vm_definitions::instructions::OP_DIV`: the crate defines it as `0x17`.
#[verifier::external_body]
pub(crate) fn op_div() -> (r: u16)
    ensures
        r == 0x17,
{
    insts::OP_DIV
}

/// `ckb_vm_definitions::instructions::OP_DIVU`: the crate defines it as `0x18`.
#[verifier::external_body]
pub(crate) fn op_divu() -> (r: u16)
    ensures
        r == 0x18,
{
    insts::OP_DIVU
}

/// `ckb_vm_definitions::instructions::OP_LUI`: the crate defines it as `0x25`.
#[verifier::external_body]
pub(crate) fn op_lui() -> (r: u16)
    ensures
        r == 0x25,
{
    insts::OP_LUI
}

/// `ckb_vm_definitions::instructions::OP_MUL`: the crate defines it as `0x2a`.
#[verifier::external_body]
pub(crate) fn op_mul() -> (r: u16)
    ensures
        r == 0x2a,
{
    insts::OP_MUL
}

/// `ckb_vm_definitions::instructions::OP_MULH`: the crate defines it as `0x2b`.
#[verifier::external_body]
pub(crate) fn op_mulh() -> (r: u16)
    ensures
        r == 0x2b,
{
    insts::OP_MULH
}

/// `ckb_vm_definitions::instructions::OP_MULHSU`: the crate defines it as `0x2c`.
#[verifier::external_body]
pub(crate) fn op_mulhsu() -> (r: u16)
    ensures
        r == 0x2c,
{
    insts::OP_MULHSU
}

/// `ckb_vm_definitions::instructions::OP_MULHU`: the crate defines it as `0x2d`.
#[verifier::external_body]
pub(crate) fn op_mulhu() -> (r: u16)
    ensures
        r == 0x2d,
{
    insts::OP_MULHU
}

/// `ckb_vm_definitions::instructions::OP_OR`: the crate defines it as `0x2f`.
#[verifier::external_body]
pub(crate) fn op_or() -> (r: u16)
    ensures
        r == 0x2f,
{
    insts::OP_OR
}

/// `ckb_vm_definitions::instructions::OP_REM`: the crate defines it as `0x31`.
#[verifier::external_body]
pub(crate) fn op_rem() -> (r: u16)
    ensures
        r == 0x31,
{
    insts::OP_REM
}

/// `ckb_vm_definitions::instructions::OP_REMU`: the crate defines it as `0x32`.
#[verifier::external_body]
pub(crate) fn op_remu() -> (r: u16)
    ensures
        r == 0x32,
{
    insts::OP_REMU
}

/// `ckb_vm_definitions::instructions::OP_SLTU`: the crate defines it as `0x3f`.
#[verifier::external_body]
pub(crate) fn op_sltu() -> (r: u16)
    ensures
        r == 0x3f,
{
    insts::OP_SLTU
}

/// `ckb_vm_definitions::instructions::OP_SUB`: the crate defines it as `0x48`.
#[verifier::external_body]
pub(crate) fn op_sub() -> (r: u16)
    ensures
        r == 0x48,
{
    insts::OP_SUB
}

/// `ckb_vm_definitions::instructions::OP_WIDE_MUL`: the crate defines it as `0x8e`.
#[verifier::external_body]
pub(crate) fn op_wide_mul() -> (r: u16)
    ensures
        r == 0x8e,
{
    insts::OP_WIDE_MUL
}

/// `ckb_vm_definitions::instructions::OP_WIDE_MULU`: the crate defines it as `0x8f`.
#[verifier::external_body]
pub(crate) fn op_wide_mulu() -> (r: u16)
    ensures
        r == 0x8f,
{
    insts::OP_WIDE_MULU
}

/// `ckb_vm_definitions::instructions::OP_WIDE_MULSU`: the crate defines it as `0x90`.
#[verifier::external_body]
pub(crate) fn op_wide_mulsu() -> (r: u16)
    ensures
        r == 0x90,
{
    insts::OP_WIDE_MULSU
}

/// `ckb_vm_definitions::instructions::OP_WIDE_DIV`: the crate defines it as `0x91`.
#[verifier::external_body]
pub(crate) fn op_wide_div() -> (r: u16)
    ensures
        r == 0x91,
{
    insts::OP_WIDE_DIV
}

/// `ckb_vm_definitions::instructions::OP_WIDE_DIVU`: the crate defines it as `0x92`.
#[verifier::external_body]
pub(crate) fn op_wide_divu() -> (r: u16)
    ensures
        r == 0x92,
{
    insts::OP_WIDE_DIVU
}

/// `ckb_vm_definitions::instructions::OP_ADC`: the crate defines it as `0x93`.
#[verifier::external_body]
pub(crate) fn op_adc() -> (r: u16)
    ensures
        r == 0x93,
{
    insts::OP_ADC
}

/// `ckb_vm_definitions::instructions::OP_SBB`: the crate defines it as `0x94`.
#[verifier::external_body]
pub(crate) fn op_sbb() -> (r: u16)
    ensures
        r == 0x94,
{
    insts::OP_SBB
}

/// `ckb_vm_definitions::instructions::OP_CUSTOM_LOAD_IMM`: the crate defines it as `0x9b`.
#[verifier::external_body]
pub(crate) fn op_custom_load_imm() -> (r: u16)
    ensures
        r == 0x9b,
{
    insts::OP_CUSTOM_LOAD_IMM
}

/// `ckb_vm_definitions::instructions::OP_AUIPC`: the crate defines it as `0x9c`.
#[verifier::external_body]
pub(crate) fn op_auipc() -> (r: u16)
    ensures
        r == 0x9c,
{
    insts::OP_AUIPC
}

/// `ckb_vm_definitions::instructions::OP_JALR_VERSION1`: the crate defines it as `0xa9`.
#[verifier::external_body]
pub(crate) fn op_jalr_version1() -> (r: u16)
    ensures
        r == 0xa9,
{
    insts::OP_JALR_VERSION1
}

/// `ckb_vm_definitions::instructions::OP_FAR_JUMP_REL`: the crate defines it as `0xaa`.
#[verifier::external_body]
pub(crate) fn op_far_jump_rel() -> (r: u16)
    ensures
        r == 0xaa,
{
    insts::OP_FAR_JUMP_REL
}

/// `ckb_vm_definitions::instructions::OP_FAR_JUMP_ABS`: the crate defines it as `0xab`.
#[verifier::external_body]
pub(crate) fn op_far_jump_abs() -> (r: u16)
    ensures
        r == 0xab,
{
    insts::OP_FAR_JUMP_ABS
}

} // verus!
