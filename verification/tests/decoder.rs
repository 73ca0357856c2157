use ckb_vm_decoder::decoder::mop_rules::{rules, MopDecoder};
use ckb_vm_decoder::decoder::{build_decoder, Decoder};
use ckb_vm_decoder::error::Error;
use ckb_vm_decoder::instructions::{
    extract_opcode, instruction_length, set_instruction_length_n, InstructionFactory, Itype,
    R4type, Rtype, Utype,
};
use ckb_vm_decoder::memory::Memory;
use ckb_vm_definitions::instructions as insts;
use ckb_vm_definitions::{ISA_B, ISA_IMC, ISA_MOP, RISCV_MAX_MEMORY};

/// Memory of `bytes`; loads beyond them fail.
struct FlatMemory {
    bytes: Vec<u8>,
    loads: usize,
}

impl FlatMemory {
    fn new(size: usize) -> FlatMemory {
        FlatMemory { bytes: vec![0; size], loads: 0 }
    }

    fn put16(&mut self, addr: usize, v: u16) {
        self.bytes[addr..addr + 2].copy_from_slice(&v.to_le_bytes());
    }

    fn put32(&mut self, addr: usize, v: u32) {
        self.bytes[addr..addr + 4].copy_from_slice(&v.to_le_bytes());
    }
}

impl Memory for FlatMemory {
    fn spec_execute_load16(&self, addr: u64) -> Result<u16, Error> {
        let a = addr as usize;
        if a + 2 > self.bytes.len() {
            return Err(Error::MemOutOfBound);
        }
        Ok(u16::from_le_bytes([self.bytes[a], self.bytes[a + 1]]))
    }

    fn spec_execute_load32(&self, addr: u64) -> Result<u32, Error> {
        let a = addr as usize;
        if a + 4 > self.bytes.len() {
            return Err(Error::MemOutOfBound);
        }
        Ok(u32::from_le_bytes([
            self.bytes[a],
            self.bytes[a + 1],
            self.bytes[a + 2],
            self.bytes[a + 3],
        ]))
    }

    fn execute_load16(&mut self, addr: u64) -> Result<u16, Error> {
        self.loads += 1;
        self.spec_execute_load16(addr)
    }

    fn execute_load32(&mut self, addr: u64) -> Result<u32, Error> {
        self.loads += 1;
        self.spec_execute_load32(addr)
    }
}

/// Factories for the tests: a table from instruction bits to decoded
/// instructions, one that recognises nothing, and one that recognises all.
enum TestFactory {
    Table(Vec<(u32, u64)>),
    Never,
    Always(u64),
}

impl InstructionFactory for TestFactory {
    fn spec_decode(&self, instruction_bits: u32, _version: u32) -> Option<u64> {
        match self {
            TestFactory::Table(entries) => entries
                .iter()
                .find(|(bits, _)| *bits == instruction_bits)
                .map(|(_, inst)| *inst),
            TestFactory::Never => None,
            TestFactory::Always(inst) => Some(*inst),
        }
    }

    fn decode(&self, instruction_bits: u32, version: u32) -> Option<u64> {
        self.spec_decode(instruction_bits, version)
    }
}

fn rtype(op: u16, rd: usize, rs1: usize, rs2: usize) -> u64 {
    set_instruction_length_n(Rtype::new(op, rd, rs1, rs2).0, 4)
}

fn itype(op: u16, rd: usize, rs1: usize, imm: i32) -> u64 {
    set_instruction_length_n(Rtype::new(op, rd, rs1, 0).0 | ((imm as i64 as u64) << 40), 4)
}

fn utype(op: u16, rd: usize, imm: i32) -> u64 {
    set_instruction_length_n(Utype::new_s(op, rd, imm).0, 4)
}

/// A decoder whose only factory maps the 32-bit words `0x1003 + 0x100 * k`
/// to `decoded[k]`, with those words stored from address 0 on.
fn program(decoded: &[u64], mop: bool, version: u32) -> (Decoder<TestFactory>, FlatMemory) {
    let mut memory = FlatMemory::new(8192);
    let mut table = Vec::new();
    for (k, inst) in decoded.iter().enumerate() {
        let bits = 0x1003 + 0x100 * k as u32;
        memory.put32(4 * k, bits);
        table.push((bits, *inst));
    }
    let mut decoder = Decoder::new(mop, version);
    decoder.add_instruction_factory(TestFactory::Table(table));
    (decoder, memory)
}

#[test]
fn new_decoder_reports_its_version() {
    let decoder: Decoder<TestFactory> = Decoder::new(false, 7);
    assert_eq!(decoder.version(), 7);
}

#[test]
fn decode_raw_rejects_pc_outside_memory() {
    let mut memory = FlatMemory::new(16);
    let mut decoder = Decoder::new(false, 1);
    decoder.add_instruction_factory(TestFactory::Always(42));
    assert_eq!(
        decoder.decode_raw(&mut memory, RISCV_MAX_MEMORY as u64),
        Err(Error::MemOutOfBound)
    );
    assert_eq!(decoder.decode_raw(&mut memory, u64::MAX - 1), Err(Error::MemOutOfBound));
    assert_eq!(memory.loads, 0);
}

#[test]
fn decode_raw_reports_unrecognised_bits() {
    let mut memory = FlatMemory::new(16);
    memory.put32(4, 0xdead_beef);
    let mut decoder = Decoder::new(false, 1);
    decoder.add_instruction_factory(TestFactory::Never);
    assert_eq!(
        decoder.decode_raw(&mut memory, 4),
        Err(Error::InvalidInstruction { pc: 4, instruction: 0xdead_beef })
    );
}

#[test]
fn decode_raw_with_no_factory_reports_unrecognised_bits() {
    let mut memory = FlatMemory::new(16);
    memory.put32(0, 0x0000_0013);
    let mut decoder: Decoder<TestFactory> = Decoder::new(false, 1);
    assert_eq!(
        decoder.decode_raw(&mut memory, 0),
        Err(Error::InvalidInstruction { pc: 0, instruction: 0x13 })
    );
}

#[test]
fn decode_raw_takes_the_first_factory_that_recognises() {
    let mut memory = FlatMemory::new(16);
    memory.put32(0, 0x0000_1003);
    memory.put32(4, 0x0000_2003);
    let mut decoder = Decoder::new(false, 1);
    decoder.add_instruction_factory(TestFactory::Never);
    decoder.add_instruction_factory(TestFactory::Table(vec![(0x1003, 11)]));
    decoder.add_instruction_factory(TestFactory::Always(22));
    decoder.add_instruction_factory(TestFactory::Always(33));
    assert_eq!(decoder.decode_raw(&mut memory, 0), Ok(11));
    assert_eq!(decoder.decode_raw(&mut memory, 4), Ok(22));
}

#[test]
fn adding_a_factory_keeps_successful_decodings() {
    let mut memory = FlatMemory::new(16);
    memory.put32(0, 0x0000_1003);
    memory.put32(4, 0x0000_2003);
    let mut decoder = Decoder::new(false, 1);
    decoder.add_instruction_factory(TestFactory::Table(vec![(0x1003, 11)]));
    assert_eq!(decoder.decode_raw(&mut memory, 0), Ok(11));
    assert!(decoder.decode_raw(&mut memory, 4).is_err());
    decoder.add_instruction_factory(TestFactory::Always(99));
    assert_eq!(decoder.decode_raw(&mut memory, 0), Ok(11));
    assert_eq!(decoder.decode_raw(&mut memory, 4), Ok(99));
}

#[test]
fn compressed_instruction_keeps_only_its_16_bits() {
    let mut memory = FlatMemory::new(16);
    // A 16-bit instruction (low bits 0b01) followed by unrelated bits.
    memory.put16(0, 0x4501);
    memory.put16(2, 0xffff);
    let mut decoder = Decoder::new(false, 1);
    decoder.add_instruction_factory(TestFactory::Never);
    assert_eq!(
        decoder.decode_raw(&mut memory, 0),
        Err(Error::InvalidInstruction { pc: 0, instruction: 0x4501 })
    );
}

#[test]
fn full_instruction_keeps_all_32_bits() {
    let mut memory = FlatMemory::new(16);
    memory.put32(0, 0xffff_4503);
    let mut decoder = Decoder::new(false, 1);
    decoder.add_instruction_factory(TestFactory::Never);
    assert_eq!(
        decoder.decode_raw(&mut memory, 0),
        Err(Error::InvalidInstruction { pc: 0, instruction: 0xffff_4503 })
    );
}

#[test]
fn compressed_instruction_at_the_end_of_a_page_loads_two_bytes() {
    // Memory ends with the page: a 16-bit instruction in its last two bytes
    // decodes, since only those bytes are loaded.
    let mut memory = FlatMemory::new(4096);
    memory.put16(4094, 0x4501);
    let mut decoder = Decoder::new(false, 1);
    decoder.add_instruction_factory(TestFactory::Table(vec![(0x4501, 5)]));
    assert_eq!(decoder.decode_raw(&mut memory, 4094), Ok(5));
    assert_eq!(memory.loads, 1);
}

#[test]
fn full_instruction_across_a_page_boundary_loads_two_halves() {
    let mut memory = FlatMemory::new(8192);
    memory.put16(4094, 0x1003);
    memory.put16(4096, 0xabcd);
    let mut decoder = Decoder::new(false, 1);
    decoder.add_instruction_factory(TestFactory::Table(vec![(0xabcd_1003, 6)]));
    assert_eq!(decoder.decode_raw(&mut memory, 4094), Ok(6));
    assert_eq!(memory.loads, 2);
}

#[test]
fn full_instruction_past_the_end_of_memory_fails_on_its_second_half() {
    let mut memory = FlatMemory::new(4096);
    memory.put16(4094, 0x1003);
    let mut decoder = Decoder::new(false, 1);
    decoder.add_instruction_factory(TestFactory::Always(1));
    assert_eq!(decoder.decode_raw(&mut memory, 4094), Err(Error::MemOutOfBound));
}

#[test]
fn instruction_inside_a_page_is_loaded_at_once() {
    let mut memory = FlatMemory::new(4096);
    memory.put16(4092, 0x4501);
    let mut decoder = Decoder::new(false, 1);
    decoder.add_instruction_factory(TestFactory::Table(vec![(0x4501, 8)]));
    assert_eq!(decoder.decode_raw(&mut memory, 4092), Ok(8));
    assert_eq!(memory.loads, 1);
}

#[test]
fn build_decoder_adds_b_factory_only_with_isa_b() {
    let mut memory = FlatMemory::new(16);
    memory.put32(0, 0x0000_1003);
    let mut without_b = build_decoder(
        ISA_IMC,
        1,
        TestFactory::Never,
        TestFactory::Never,
        TestFactory::Never,
        TestFactory::Always(77),
    );
    assert_eq!(
        without_b.decode_raw(&mut memory, 0),
        Err(Error::InvalidInstruction { pc: 0, instruction: 0x1003 })
    );
    let mut with_b = build_decoder(
        ISA_B,
        1,
        TestFactory::Never,
        TestFactory::Never,
        TestFactory::Never,
        TestFactory::Always(77),
    );
    assert_eq!(with_b.decode_raw(&mut memory, 0), Ok(77));
    assert_eq!(with_b.version(), 1);
}

#[test]
fn build_decoder_tries_rvc_then_i_then_m() {
    let mut memory = FlatMemory::new(16);
    memory.put32(0, 0x0000_1003);
    let mut decoder = build_decoder(
        ISA_B,
        0,
        TestFactory::Never,
        TestFactory::Always(2),
        TestFactory::Always(3),
        TestFactory::Always(4),
    );
    assert_eq!(decoder.decode_raw(&mut memory, 0), Ok(2));
}

fn adc_program() -> Vec<u64> {
    vec![
        rtype(insts::OP_ADD, 5, 5, 6),
        rtype(insts::OP_SLTU, 6, 5, 6),
        rtype(insts::OP_ADD, 5, 5, 7),
        rtype(insts::OP_SLTU, 7, 5, 7),
        rtype(insts::OP_OR, 6, 6, 7),
    ]
}

#[test]
fn mop_fuses_carry_add_into_adc() {
    let (mut decoder, mut memory) = program(&adc_program(), true, 1);
    let fused = decoder.decode_mop(&mut memory, 0).unwrap();
    assert_eq!(extract_opcode(fused), insts::OP_ADC);
    assert_eq!(instruction_length(fused), 20);
    let r = Rtype(fused);
    assert_eq!((r.rd(), r.rs1(), r.rs2()), (5, 6, 7));
    assert_eq!(fused, set_instruction_length_n(Rtype::new(insts::OP_ADC, 5, 6, 7).0, 20));
}

#[test]
fn mop_keeps_carry_add_with_a_zero_register_apart() {
    let program_with_zero = vec![
        rtype(insts::OP_ADD, 5, 5, 0),
        rtype(insts::OP_SLTU, 0, 5, 0),
        rtype(insts::OP_ADD, 5, 5, 7),
        rtype(insts::OP_SLTU, 7, 5, 7),
        rtype(insts::OP_OR, 0, 0, 7),
    ];
    let (mut decoder, mut memory) = program(&program_with_zero, true, 1);
    assert_eq!(decoder.decode_mop(&mut memory, 0), Ok(program_with_zero[0]));
}

#[test]
fn mop_keeps_misaligned_registers_apart() {
    let mut p = adc_program();
    p[4] = rtype(insts::OP_OR, 6, 6, 8);
    let (mut decoder, mut memory) = program(&p, true, 1);
    assert_eq!(decoder.decode_mop(&mut memory, 0), Ok(p[0]));
}

#[test]
fn mop_does_not_fuse_before_version_one() {
    let p = adc_program();
    let (mut decoder, mut memory) = program(&p, true, 0);
    assert_eq!(decoder.decode_mop(&mut memory, 0), Ok(p[0]));
    assert_eq!(decoder.decode(&mut memory, 0), Ok(p[0]));
}

#[test]
fn mop_fuses_borrow_sub_into_sbb() {
    // sub r1, r0, r1; sltu r3, r0, r1; sub r0, r1, r2; sltu r2, r1, r0; or r1, r2, r3
    let (r0, r1, r2, r3) = (10, 11, 12, 13);
    let p = vec![
        rtype(insts::OP_SUB, r1, r0, r1),
        rtype(insts::OP_SLTU, r3, r0, r1),
        rtype(insts::OP_SUB, r0, r1, r2),
        rtype(insts::OP_SLTU, r2, r1, r0),
        rtype(insts::OP_OR, r1, r2, r3),
    ];
    let (mut decoder, mut memory) = program(&p, true, 1);
    let fused = decoder.decode_mop(&mut memory, 0).unwrap();
    assert_eq!(fused, set_instruction_length_n(R4type::new(insts::OP_SBB, r0, r1, r2, r3).0, 20));
}

#[test]
fn mop_fuses_wide_multiplications_and_divisions() {
    let cases = [
        (insts::OP_MULH, insts::OP_MUL, insts::OP_WIDE_MUL),
        (insts::OP_MULHU, insts::OP_MUL, insts::OP_WIDE_MULU),
        (insts::OP_MULHSU, insts::OP_MUL, insts::OP_WIDE_MULSU),
        (insts::OP_DIV, insts::OP_REM, insts::OP_WIDE_DIV),
        (insts::OP_DIVU, insts::OP_REMU, insts::OP_WIDE_DIVU),
    ];
    for (high, low, wide) in cases {
        let p = vec![rtype(high, 10, 11, 12), rtype(low, 13, 11, 12)];
        let (mut decoder, mut memory) = program(&p, true, 1);
        let fused = decoder.decode_mop(&mut memory, 0).unwrap();
        assert_eq!(fused, set_instruction_length_n(R4type::new(wide, 10, 11, 12, 13).0, 8));
    }
}

#[test]
fn mop_keeps_wide_pair_overwriting_a_source_apart() {
    let p = vec![rtype(insts::OP_MULH, 11, 11, 12), rtype(insts::OP_MUL, 13, 11, 12)];
    let (mut decoder, mut memory) = program(&p, true, 1);
    assert_eq!(decoder.decode_mop(&mut memory, 0), Ok(p[0]));
}

#[test]
fn mop_fuses_far_jumps() {
    let p = vec![utype(insts::OP_AUIPC, 5, 0x1234_5000), itype(insts::OP_JALR_VERSION1, 1, 5, -4)];
    let (mut decoder, mut memory) = program(&p, true, 1);
    let fused = decoder.decode_mop(&mut memory, 0).unwrap();
    assert_eq!(extract_opcode(fused), insts::OP_FAR_JUMP_REL);
    assert_eq!(Utype(fused).rd(), 1);
    assert_eq!(Utype(fused).immediate_s(), 0x1234_4ffc);
    assert_eq!(instruction_length(fused), 8);

    let p = vec![utype(insts::OP_LUI, 5, 0x7fff_f000), itype(insts::OP_JALR_VERSION1, 1, 5, 0x7ff)];
    let (mut decoder, mut memory) = program(&p, true, 1);
    let fused = decoder.decode_mop(&mut memory, 0).unwrap();
    assert_eq!(extract_opcode(fused), insts::OP_FAR_JUMP_ABS);
    // The immediates add with wrapping.
    assert_eq!(Utype(fused).immediate_s(), 0x7fff_f7ffi32);
}

#[test]
fn mop_far_jump_immediates_wrap() {
    let p = vec![utype(insts::OP_LUI, 5, i32::MAX), itype(insts::OP_JALR_VERSION1, 1, 5, 1)];
    let (mut decoder, mut memory) = program(&p, true, 1);
    let fused = decoder.decode_mop(&mut memory, 0).unwrap();
    assert_eq!(Utype(fused).immediate_s(), i32::MIN);
}

#[test]
fn mop_keeps_jump_not_linking_ra_apart() {
    let p = vec![utype(insts::OP_AUIPC, 5, 0x1000), itype(insts::OP_JALR_VERSION1, 2, 5, 4)];
    let (mut decoder, mut memory) = program(&p, true, 1);
    assert_eq!(decoder.decode_mop(&mut memory, 0), Ok(p[0]));
}

#[test]
fn mop_fuses_load_immediate() {
    let p = vec![utype(insts::OP_LUI, 9, 0x1000), itype(insts::OP_ADDIW, 9, 9, -1)];
    let (mut decoder, mut memory) = program(&p, true, 1);
    let fused = decoder.decode_mop(&mut memory, 0).unwrap();
    assert_eq!(extract_opcode(fused), insts::OP_CUSTOM_LOAD_IMM);
    assert_eq!(Utype(fused).rd(), 9);
    assert_eq!(Utype(fused).immediate_s(), 0xfff);
    assert_eq!(Itype(p[1]).immediate_s(), -1);
}

#[test]
fn mop_reports_errors_of_the_following_instructions() {
    // The head is an `add`, so the first rule decodes the next instruction,
    // which no factory recognises.
    let mut memory = FlatMemory::new(64);
    memory.put32(0, 0x1003);
    memory.put32(4, 0x2003);
    let mut decoder = Decoder::new(true, 1);
    decoder.add_instruction_factory(TestFactory::Table(vec![(0x1003, rtype(insts::OP_ADD, 5, 5, 6))]));
    assert_eq!(
        decoder.decode_mop(&mut memory, 0),
        Err(Error::InvalidInstruction { pc: 4, instruction: 0x2003 })
    );
}

#[test]
fn mop_does_not_decode_past_a_differing_opcode() {
    // The head matches no rule, so nothing after it is decoded.
    let mut memory = FlatMemory::new(64);
    memory.put32(0, 0x1003);
    memory.put32(4, 0x2003);
    let head = rtype(insts::OP_XOR, 5, 5, 6);
    let mut decoder = Decoder::new(true, 1);
    decoder.add_instruction_factory(TestFactory::Table(vec![(0x1003, head)]));
    assert_eq!(decoder.decode_mop(&mut memory, 0), Ok(head));
}

#[test]
fn mop_decoder_decodes_directly() {
    let (mut decoder, mut memory) = program(&adc_program(), true, 1);
    let mut mop_decoder = MopDecoder::new(&mut decoder, &mut memory, 0);
    let fused = mop_decoder.decode().unwrap().unwrap();
    assert_eq!(extract_opcode(fused), insts::OP_ADC);

    let p = vec![rtype(insts::OP_XOR, 5, 5, 6)];
    let (mut decoder, mut memory) = program(&p, true, 1);
    let mut mop_decoder = MopDecoder::new(&mut decoder, &mut memory, 0);
    assert_eq!(mop_decoder.decode(), Ok(None));
}

#[test]
fn check_rule_decodes_what_the_rule_needs() {
    let p = vec![rtype(insts::OP_MULH, 10, 11, 12), rtype(insts::OP_MUL, 13, 11, 12)];
    let (mut decoder, mut memory) = program(&p, true, 1);
    let mut mop_decoder = MopDecoder::new(&mut decoder, &mut memory, 0);
    let all = rules();
    let mut loaded = vec![p[0]];
    let mut sizes = vec![4u8];
    // The carry-add rule needs `add` first.
    assert_eq!(mop_decoder.check_rule(&all[0], &mut loaded, &mut sizes), Ok(None));
    assert_eq!(loaded.len(), 1);
    let fused = mop_decoder.check_rule(&all[2], &mut loaded, &mut sizes).unwrap().unwrap();
    assert_eq!(fused, set_instruction_length_n(R4type::new(insts::OP_WIDE_MUL, 10, 11, 12, 13).0, 8));
    assert_eq!(loaded, p);
    assert_eq!(sizes, vec![4, 4]);
}

#[test]
fn decode_uses_mop_when_built_with_isa_mop() {
    let p = adc_program();
    let (_, mut memory) = program(&p, true, 1);
    let mut table = Vec::new();
    for (k, inst) in p.iter().enumerate() {
        table.push((0x1003 + 0x100 * k as u32, *inst));
    }
    let mut decoder = build_decoder(
        ISA_MOP,
        1,
        TestFactory::Table(table),
        TestFactory::Never,
        TestFactory::Never,
        TestFactory::Never,
    );
    assert_eq!(extract_opcode(decoder.decode(&mut memory, 0).unwrap()), insts::OP_ADC);
}

#[test]
fn decode_caches_by_pc() {
    let p = vec![rtype(insts::OP_XOR, 1, 2, 3), rtype(insts::OP_AND, 4, 5, 6)];
    let (mut decoder, mut memory) = program(&p, false, 1);
    assert_eq!(decoder.decode(&mut memory, 0), Ok(p[0]));
    let loads = memory.loads;
    // A second decode at the same PC is answered by the cache.
    assert_eq!(decoder.decode(&mut memory, 0), Ok(p[0]));
    assert_eq!(memory.loads, loads);
    // Changing memory without resetting the cache leaves the cached answer.
    memory.put32(0, 0x1103);
    assert_eq!(decoder.decode(&mut memory, 0), Ok(p[0]));
    // After a reset, memory is read again.
    decoder.reset_instructions_cache();
    assert_eq!(decoder.decode(&mut memory, 0), Ok(p[1]));
}

#[test]
fn decode_shares_a_slot_between_distant_pcs() {
    // PCs 0 and 0x2000 map to the same slot; the later one replaces the
    // earlier, and both still decode correctly.
    let mut memory = FlatMemory::new(0x3000);
    memory.put32(0, 0x1003);
    memory.put32(0x2000, 0x2003);
    let mut decoder = Decoder::new(false, 1);
    decoder.add_instruction_factory(TestFactory::Table(vec![(0x1003, 1), (0x2003, 2)]));
    assert_eq!(decoder.decode(&mut memory, 0), Ok(1));
    assert_eq!(decoder.decode(&mut memory, 0x2000), Ok(2));
    assert_eq!(decoder.decode(&mut memory, 0), Ok(1));
    assert_eq!(decoder.decode(&mut memory, 0x2000), Ok(2));
}

#[test]
fn decode_does_not_cache_errors() {
    let mut memory = FlatMemory::new(16);
    memory.put32(0, 0x2003);
    let mut decoder = Decoder::new(false, 1);
    decoder.add_instruction_factory(TestFactory::Table(vec![(0x1003, 1)]));
    assert_eq!(
        decoder.decode(&mut memory, 0),
        Err(Error::InvalidInstruction { pc: 0, instruction: 0x2003 })
    );
    memory.put32(0, 0x1003);
    assert_eq!(decoder.decode(&mut memory, 0), Ok(1));
}

#[test]
fn decode_rejects_pc_outside_memory_before_the_cache() {
    // An empty slot holds the PC `RISCV_MAX_MEMORY`; decoding there still
    // reports that the PC is outside memory, without loading.
    let mut memory = FlatMemory::new(16);
    let mut decoder = Decoder::new(false, 1);
    decoder.add_instruction_factory(TestFactory::Always(5));
    assert_eq!(decoder.decode(&mut memory, RISCV_MAX_MEMORY as u64), Err(Error::MemOutOfBound));
    assert_eq!(decoder.decode(&mut memory, RISCV_MAX_MEMORY as u64 + 2), Err(Error::MemOutOfBound));
    assert_eq!(memory.loads, 0);
}

#[test]
fn check_rule_fuses_loaded_instructions_with_their_sizes() {
    let p = vec![rtype(insts::OP_XOR, 1, 1, 1)];
    let (mut decoder, mut memory) = program(&p, true, 1);
    let mut mop_decoder = MopDecoder::new(&mut decoder, &mut memory, 0);
    let all = rules();
    let mut loaded = vec![
        Rtype::new(insts::OP_MULH, 5, 6, 7).0,
        Rtype::new(insts::OP_MUL, 8, 6, 7).0,
        Rtype::new(insts::OP_ADD, 1, 2, 3).0,
    ];
    let mut sizes = vec![4u8, 4, 2];
    assert_eq!(
        mop_decoder.check_rule(&all[2], &mut loaded, &mut sizes),
        Ok(Some(set_instruction_length_n(R4type::new(insts::OP_WIDE_MUL, 5, 6, 7, 8).0, 8)))
    );
    assert_eq!(loaded.len(), 3);
    assert_eq!(sizes, vec![4, 4, 2]);
    assert_eq!(memory.loads, 0);
}

#[test]
fn check_rule_leaves_vectors_on_a_loaded_mismatch() {
    let p = vec![rtype(insts::OP_MUL, 1, 1, 1)];
    let (mut decoder, mut memory) = program(&p, true, 1);
    let mut mop_decoder = MopDecoder::new(&mut decoder, &mut memory, 0);
    let all = rules();
    let mut loaded = vec![Rtype::new(insts::OP_ADD, 5, 5, 6).0];
    let mut sizes = vec![4u8];
    assert_eq!(mop_decoder.check_rule(&all[2], &mut loaded, &mut sizes), Ok(None));
    assert_eq!(loaded, vec![Rtype::new(insts::OP_ADD, 5, 5, 6).0]);
    assert_eq!(sizes, vec![4]);
    assert_eq!(memory.loads, 0);
}

#[test]
fn check_rule_ignores_rules_of_later_versions() {
    let p = vec![rtype(insts::OP_MULH, 10, 11, 12), rtype(insts::OP_MUL, 13, 11, 12)];
    let (mut decoder, mut memory) = program(&p, true, 0);
    let mut mop_decoder = MopDecoder::new(&mut decoder, &mut memory, 0);
    let all = rules();
    let mut loaded = vec![p[0]];
    let mut sizes = vec![4u8];
    assert_eq!(mop_decoder.check_rule(&all[2], &mut loaded, &mut sizes), Ok(None));
    assert_eq!(loaded, vec![p[0]]);
    assert_eq!(sizes, vec![4]);
    assert_eq!(memory.loads, 0);
}

#[test]
fn check_rule_stops_after_the_first_differing_opcode() {
    // The carry-add rule loads the second instruction, finds `xor` where it
    // wants `sltu`, and loads nothing more.
    let p = vec![
        rtype(insts::OP_ADD, 5, 5, 6),
        rtype(insts::OP_XOR, 6, 5, 6),
        rtype(insts::OP_ADD, 5, 5, 7),
    ];
    let (mut decoder, mut memory) = program(&p, true, 1);
    let mut mop_decoder = MopDecoder::new(&mut decoder, &mut memory, 0);
    let all = rules();
    let mut loaded = vec![p[0]];
    let mut sizes = vec![4u8];
    assert_eq!(mop_decoder.check_rule(&all[0], &mut loaded, &mut sizes), Ok(None));
    assert_eq!(loaded, vec![p[0], p[1]]);
    assert_eq!(sizes, vec![4, 4]);
}

#[test]
fn check_rule_keeps_instructions_decoded_before_an_error() {
    // The second instruction is recognised, the third is not.
    let mut memory = FlatMemory::new(64);
    memory.put32(0, 0x1003);
    memory.put32(4, 0x2003);
    memory.put32(8, 0x3003);
    let first = rtype(insts::OP_ADD, 5, 5, 6);
    let second = rtype(insts::OP_SLTU, 6, 5, 6);
    let mut decoder = Decoder::new(true, 1);
    decoder.add_instruction_factory(TestFactory::Table(vec![(0x1003, first), (0x2003, second)]));
    let mut mop_decoder = MopDecoder::new(&mut decoder, &mut memory, 0);
    let all = rules();
    let mut loaded = vec![first];
    let mut sizes = vec![4u8];
    assert_eq!(
        mop_decoder.check_rule(&all[0], &mut loaded, &mut sizes),
        Err(Error::InvalidInstruction { pc: 8, instruction: 0x3003 })
    );
    assert_eq!(loaded, vec![first, second]);
    assert_eq!(sizes, vec![4, 4]);
}

#[test]
fn check_rule_returns_early_whatever_the_sizes() {
    // A rule for a later version returns before looking at the sizes, so
    // they need not match the instructions.
    let p = vec![rtype(insts::OP_MULH, 10, 11, 12), rtype(insts::OP_MUL, 13, 11, 12)];
    let (mut decoder, mut memory) = program(&p, true, 0);
    let mut mop_decoder = MopDecoder::new(&mut decoder, &mut memory, 0);
    let all = rules();
    let mut loaded = vec![p[0]];
    let mut sizes: Vec<u8> = vec![255, 255, 255];
    assert_eq!(mop_decoder.check_rule(&all[2], &mut loaded, &mut sizes), Ok(None));
    assert_eq!(loaded, vec![p[0]]);
    assert_eq!(sizes, vec![255, 255, 255]);
    assert_eq!(memory.loads, 0);
}
