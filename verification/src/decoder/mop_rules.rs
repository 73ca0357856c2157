//! Macro-operation fusion.
//!
//! Macro-operation fusion merges a series of adjacent instructions into a
//! single one before execution. Each rule names the opcodes of the series,
//! the VM version from which it applies, and how the series is fused when
//! its registers line up.
use vstd::prelude::*;

use crate::decoder::{lemma_in_memory_no_overflow, lemma_raw_decoding_same_fetches, memory_limit, Decoder};
use crate::definitions::{
    op_adc, op_add, op_addiw, op_auipc, op_custom_load_imm, op_div, op_divu, op_far_jump_abs,
    op_far_jump_rel, op_jalr_version1, op_lui, op_mul, op_mulh, op_mulhsu, op_mulhu, op_or, op_rem,
    op_remu, op_sbb, op_sltu, op_sub, op_wide_div, op_wide_divu, op_wide_mul, op_wide_mulsu,
    op_wide_mulu, reg_ra, reg_zero,
};
use crate::error::Error;
use crate::instructions::{
    encode_r4type, encode_rtype, encode_utype, extract_opcode, instruction_length, itype_immediate,
    length_of, opcode_of, rd_of, rs1_of, rs2_of, rs3_of, set_instruction_length_n, utype_immediate,
    with_length, Instruction, InstructionFactory, InstructionOpcode, Itype, R4type, Rtype, Utype,
};
use crate::memory::{same_fetches, Memory};

verus! {

/// The longest series of instructions a rule fuses.
pub const MAX_INSTS_IN_MOP: usize = 5;

/// How a series of instructions is fused; each variant carries the opcode of
/// the fused instruction.
#[derive(Clone, Copy, Debug, PartialEq, Eq, Structural)]
pub enum Fusion {
    /// `add r0, r0, r1; sltu r1, r0, r1; add r0, r0, r2; sltu r2, r0, r2;
    /// or r1, r1, r2` with `r0`, `r1`, `r2` distinct and not `zero`, fused
    /// into the R-type `op r0, r1, r2`.
    CarryAdd(InstructionOpcode),
    /// `sub r1, r0, r1; sltu r3, r0, r1; sub r0, r1, r2; sltu r2, r1, r0;
    /// or r1, r2, r3` with `r0`..`r3` distinct and not `zero`, fused into
    /// the R4-type `op r0, r1, r2, r3`.
    BorrowSub(InstructionOpcode),
    /// `high r0, r1, r2; low r3, r1, r2` with `r0` distinct from `r1`, `r2`
    /// and `r3`, fused into the R4-type `op r0, r1, r2, r3`.
    WidePair(InstructionOpcode),
    /// `upper r0, imm0; jalr ra, r0, imm1`, fused into the U-type
    /// `op ra, imm0 + imm1` (wrapping).
    FarJump(InstructionOpcode),
    /// `lui r0, imm0; addiw r0, r0, imm1`, fused into the U-type
    /// `op r0, imm0 + imm1` (wrapping).
    LoadImmediate(InstructionOpcode),
}

/// The number of instructions a fusion reads.
pub open spec fn fusion_arity(fusion: Fusion) -> nat {
    match fusion {
        Fusion::CarryAdd(_) => 5,
        Fusion::BorrowSub(_) => 5,
        _ => 2,
    }
}

/// `i` names the registers `rd`, `rs1`, `rs2` in its R-type fields.
pub open spec fn has_registers(i: Instruction, rd: usize, rs1: usize, rs2: usize) -> bool {
    rd_of(i) == rd && rs1_of(i) == rs1 && rs2_of(i) == rs2
}

/// The instruction a fusion makes of `insts` (whose opcodes already match
/// the rule), or `None` when their registers do not line up.
pub open spec fn fused(fusion: Fusion, insts: Seq<Instruction>) -> Option<Instruction> {
    match fusion {
        Fusion::CarryAdd(op) => {
            let r0 = rd_of(insts[0]);
            let r1 = rs2_of(insts[0]);
            let r2 = rs2_of(insts[2]);
            if has_registers(insts[0], r0, r0, r1) && has_registers(insts[1], r1, r0, r1)
                && has_registers(insts[2], r0, r0, r2) && has_registers(insts[3], r2, r0, r2)
                && has_registers(insts[4], r1, r1, r2) && r0 != r1 && r0 != r2 && r1 != r2 && r0
                != 0 && r1 != 0 && r2 != 0 {
                Some(encode_rtype(op, r0, r1, r2))
            } else {
                None
            }
        },
        Fusion::BorrowSub(op) => {
            let r0 = rs1_of(insts[0]);
            let r1 = rd_of(insts[0]);
            let r2 = rs2_of(insts[2]);
            let r3 = rd_of(insts[1]);
            if has_registers(insts[0], r1, r0, r1) && has_registers(insts[1], r3, r0, r1)
                && has_registers(insts[2], r0, r1, r2) && has_registers(insts[3], r2, r1, r0)
                && has_registers(insts[4], r1, r2, r3) && r0 != r1 && r0 != r2 && r0 != r3 && r1
                != r2 && r1 != r3 && r2 != r3 && r0 != 0 && r1 != 0 && r2 != 0 && r3 != 0 {
                Some(encode_r4type(op, r0, r1, r2, r3))
            } else {
                None
            }
        },
        Fusion::WidePair(op) => {
            let r0 = rd_of(insts[0]);
            let r1 = rs1_of(insts[0]);
            let r2 = rs2_of(insts[0]);
            let r3 = rd_of(insts[1]);
            if has_registers(insts[1], r3, r1, r2) && r0 != r1 && r0 != r2 && r0 != r3 {
                Some(encode_r4type(op, r0, r1, r2, r3))
            } else {
                None
            }
        },
        Fusion::FarJump(op) => {
            let r0 = rd_of(insts[0]);
            if rd_of(insts[1]) == 1 && rs1_of(insts[1]) == r0 {
                Some(
                    encode_utype(
                        op,
                        1,
                        utype_immediate(insts[0]).wrapping_add(itype_immediate(insts[1])),
                    ),
                )
            } else {
                None
            }
        },
        Fusion::LoadImmediate(op) => {
            let r0 = rd_of(insts[0]);
            if rd_of(insts[1]) == r0 && rs1_of(insts[1]) == r0 {
                Some(
                    encode_utype(
                        op,
                        r0,
                        utype_immediate(insts[0]).wrapping_add(itype_immediate(insts[1])),
                    ),
                )
            } else {
                None
            }
        },
    }
}

/// A fusion rule: the opcodes of the series, the first VM version it
/// applies to, and how the series is fused.
pub struct Rule {
    pub opcodes: Vec<InstructionOpcode>,
    pub version: u32,
    pub fusion: Fusion,
}

impl View for Rule {
    type V = (Seq<InstructionOpcode>, u32, Fusion);

    open spec fn view(&self) -> (Seq<InstructionOpcode>, u32, Fusion) {
        (self.opcodes@, self.version, self.fusion)
    }
}

impl Rule {
    /// The rule lists as many opcodes as its fusion reads.
    pub open spec fn wf(&self) -> bool {
        self.opcodes@.len() == fusion_arity(self.fusion)
    }
}

/// The fusion rules, in the order they are tried.
pub open spec fn rule_table() -> Seq<(Seq<InstructionOpcode>, u32, Fusion)> {
    seq![
        // add, sltu, add, sltu, or -> adc
        (seq![0x11u16, 0x3fu16, 0x11u16, 0x3fu16, 0x2fu16], 1u32, Fusion::CarryAdd(0x93u16)),
        // sub, sltu, sub, sltu, or -> sbb
        (seq![0x48u16, 0x3fu16, 0x48u16, 0x3fu16, 0x2fu16], 1u32, Fusion::BorrowSub(0x94u16)),
        // mulh, mul -> wide_mul
        (seq![0x2bu16, 0x2au16], 1u32, Fusion::WidePair(0x8eu16)),
        // mulhu, mul -> wide_mulu
        (seq![0x2du16, 0x2au16], 1u32, Fusion::WidePair(0x8fu16)),
        // mulhsu, mul -> wide_mulsu
        (seq![0x2cu16, 0x2au16], 1u32, Fusion::WidePair(0x90u16)),
        // div, rem -> wide_div
        (seq![0x17u16, 0x31u16], 1u32, Fusion::WidePair(0x91u16)),
        // divu, remu -> wide_divu
        (seq![0x18u16, 0x32u16], 1u32, Fusion::WidePair(0x92u16)),
        // auipc, jalr -> far_jump_rel
        (seq![0x9cu16, 0xa9u16], 1u32, Fusion::FarJump(0xaau16)),
        // lui, jalr -> far_jump_abs
        (seq![0x25u16, 0xa9u16], 1u32, Fusion::FarJump(0xabu16)),
        // lui, addiw -> custom_load_imm
        (seq![0x25u16, 0x13u16], 1u32, Fusion::LoadImmediate(0x9bu16)),
    ]
}

/// The sum of the lengths of decoded instructions.
pub open spec fn total_length(insts: Seq<Instruction>) -> nat
    decreases insts.len(),
{
    if insts.len() == 0 {
        0
    } else {
        total_length(insts.drop_last()) + (length_of(insts.last()) as nat)
    }
}

impl<F: InstructionFactory> Decoder<F> {
    /// `insts` are the first instructions of the stream at `pc`: each is the
    /// raw decoding at `pc` plus the lengths of those before it.
    pub open spec fn is_stream_prefix<M: Memory>(
        &self,
        memory: M,
        pc: u64,
        insts: Seq<Instruction>,
    ) -> bool {
        forall|j: int|
            #![trigger insts[j]]
            0 <= j < insts.len() ==> self.raw_decoding(memory, (pc + total_length(insts.take(j))) as u64)
                == Ok::<Instruction, Error>(insts[j])
    }

    /// Follows the stream at `pc` along the first `n` of `opcodes`: an error
    /// when decoding fails first, `None` when an opcode differs first, else
    /// the `n` instructions.
    pub open spec fn matched_stream<M: Memory>(
        &self,
        memory: M,
        pc: u64,
        opcodes: Seq<InstructionOpcode>,
        n: nat,
    ) -> Result<Option<Seq<Instruction>>, Error>
        decreases n,
    {
        if n == 0 {
            Ok(Some(Seq::empty()))
        } else {
            match self.matched_stream(memory, pc, opcodes, (n - 1) as nat) {
                Ok(Some(prefix)) => match self.raw_decoding(memory, (pc + total_length(prefix)) as u64) {
                    Ok(inst) => if opcode_of(inst) == opcodes[n - 1] {
                        Ok(Some(prefix.push(inst)))
                    } else {
                        Ok(None)
                    },
                    Err(e) => Err(e),
                },
                other => other,
            }
        }
    }

    /// What a rule gives at `pc`: nothing below its version; else the fused
    /// instruction, with the total length of the series, when the stream
    /// matches its opcodes and the fusion accepts the registers.
    pub open spec fn rule_outcome<M: Memory>(
        &self,
        memory: M,
        pc: u64,
        rule: (Seq<InstructionOpcode>, u32, Fusion),
    ) -> Result<Option<Instruction>, Error> {
        if self.decoder_version() < rule.1 {
            Ok(None)
        } else {
            match self.matched_stream(memory, pc, rule.0, rule.0.len()) {
                Ok(Some(insts)) => Ok(
                    match fused(rule.2, insts) {
                        Some(i) => Some(with_length(i, total_length(insts) as u8)),
                        None => None,
                    },
                ),
                Ok(None) => Ok(None),
                Err(e) => Err(e),
            }
        }
    }

    /// The outcome of the first of `rules` that gives an error or a fused
    /// instruction.
    pub open spec fn first_fusion<M: Memory>(
        &self,
        memory: M,
        pc: u64,
        rules: Seq<(Seq<InstructionOpcode>, u32, Fusion)>,
    ) -> Result<Option<Instruction>, Error>
        decreases rules.len(),
    {
        if rules.len() == 0 {
            Ok(None)
        } else {
            match self.rule_outcome(memory, pc, rules[0]) {
                Ok(None) => self.first_fusion(memory, pc, rules.drop_first()),
                other => other,
            }
        }
    }

    /// What fusion gives at `pc`: the error of decoding the instruction at
    /// `pc`, else the first rule's fused instruction or error, else `None`.
    pub open spec fn fused_decoding<M: Memory>(&self, memory: M, pc: u64) -> Result<
        Option<Instruction>,
        Error,
    > {
        match self.raw_decoding(memory, pc) {
            Err(e) => Err(e),
            Ok(_) => self.first_fusion(memory, pc, rule_table()),
        }
    }

    /// What `decode_mop` gives at `pc`: the fused instruction when a rule
    /// fuses, else the raw decoding.
    pub open spec fn mop_decoding<M: Memory>(&self, memory: M, pc: u64) -> Result<Instruction, Error> {
        match self.fused_decoding(memory, pc) {
            Err(e) => Err(e),
            Ok(Some(i)) => Ok(i),
            Ok(None) => self.raw_decoding(memory, pc),
        }
    }
}

/// The instruction lengths that `sizes` records are those of `insts`.
pub open spec fn sizes_match(insts: Seq<Instruction>, sizes: Seq<u8>) -> bool {
    &&& sizes.len() == insts.len()
    &&& forall|j: int| 0 <= j < insts.len() ==> #[trigger] sizes[j] == length_of(insts[j])
}

/// The sum of recorded sizes.
pub open spec fn size_total(sizes: Seq<u8>) -> nat
    decreases sizes.len(),
{
    if sizes.len() == 0 {
        0
    } else {
        size_total(sizes.drop_last()) + (sizes.last() as nat)
    }
}

/// How many instructions a rule of `rule_len` opcodes still has to decode
/// when `loaded` are already there.
pub open spec fn loads_needed(rule_len: nat, loaded: nat) -> nat {
    if loaded < rule_len {
        (rule_len - loaded) as nat
    } else {
        0
    }
}

impl<F: InstructionFactory> Decoder<F> {
    /// `check_rule`'s decoding of further instructions, `steps` of them at
    /// most, after `insts` (with sizes `sizes`): each is decoded at the PC
    /// plus the sizes so far and appended with its length. Gives the
    /// outcome (an error of decoding, `false` right after an instruction
    /// whose opcode differs from the rule's, `true` when all `steps` were
    /// decoded and matched) and the vectors after.
    pub open spec fn load_rule<M: Memory>(
        &self,
        memory: M,
        pc: u64,
        opcodes: Seq<InstructionOpcode>,
        insts: Seq<Instruction>,
        sizes: Seq<u8>,
        steps: nat,
    ) -> (Result<bool, Error>, Seq<Instruction>, Seq<u8>)
        decreases steps,
    {
        if steps == 0 {
            (Ok(true), insts, sizes)
        } else {
            let prev = self.load_rule(memory, pc, opcodes, insts, sizes, (steps - 1) as nat);
            if prev.0 == Ok::<bool, Error>(true) {
                match self.raw_decoding(memory, (pc + size_total(prev.2)) as u64) {
                    Err(e) => (Err(e), prev.1, prev.2),
                    Ok(inst) => (
                        Ok(opcode_of(inst) == opcodes[prev.1.len() as int]),
                        prev.1.push(inst),
                        prev.2.push(length_of(inst)),
                    ),
                }
            } else {
                prev
            }
        }
    }

    /// The rule is for this decoder's version or an earlier one, and the
    /// loaded instructions have the rule's opcodes as far as both go.
    pub open spec fn passes_rule_checks(
        &self,
        rule: (Seq<InstructionOpcode>, u32, Fusion),
        insts: Seq<Instruction>,
    ) -> bool {
        let n = rule.0.len();
        let checked = if insts.len() < n {
            insts.len()
        } else {
            n
        };
        self.decoder_version() >= rule.1 && opcodes_agree(insts, rule.0, checked)
    }

    /// What `check_rule` gives for `rule` with the loaded `insts` and
    /// `sizes`, and the vectors after it:
    /// - a rule for a later VM version, or one whose opcodes differ from
    ///   those of the loaded instructions, gives `None` and changes nothing;
    /// - otherwise the missing instructions are decoded (`load_rule`): an
    ///   error of decoding is returned, a differing opcode gives `None`;
    /// - when all match, the fusion of the first instructions gives the
    ///   result, with the sum of their sizes as its length.
    pub open spec fn check_rule_outcome<M: Memory>(
        &self,
        memory: M,
        pc: u64,
        rule: (Seq<InstructionOpcode>, u32, Fusion),
        insts: Seq<Instruction>,
        sizes: Seq<u8>,
    ) -> (Result<Option<Instruction>, Error>, Seq<Instruction>, Seq<u8>) {
        let n = rule.0.len();
        if !self.passes_rule_checks(rule, insts) {
            (Ok(None), insts, sizes)
        } else {
            let loaded = self.load_rule(
                memory,
                pc,
                rule.0,
                insts,
                sizes,
                loads_needed(n, insts.len()),
            );
            match loaded.0 {
                Err(e) => (Err(e), loaded.1, loaded.2),
                Ok(false) => (Ok(None), loaded.1, loaded.2),
                Ok(true) => (
                    Ok(
                        match fused(rule.2, loaded.1.take(n as int)) {
                            Some(i) => Some(with_length(i, size_total(loaded.2.take(n as int)) as u8)),
                            None => None,
                        },
                    ),
                    loaded.1,
                    loaded.2,
                ),
            }
        }
    }
}

/// Once `check_rule`'s decoding has failed or met a differing opcode, it
/// decodes nothing more.
proof fn lemma_load_rule_settled<F: InstructionFactory, M: Memory>(
    decoder: Decoder<F>,
    memory: M,
    pc: u64,
    opcodes: Seq<InstructionOpcode>,
    insts: Seq<Instruction>,
    sizes: Seq<u8>,
    i: nat,
    n: nat,
)
    requires
        i <= n,
        decoder.load_rule(memory, pc, opcodes, insts, sizes, i).0 != Ok::<bool, Error>(true),
    ensures
        decoder.load_rule(memory, pc, opcodes, insts, sizes, n) == decoder.load_rule(
            memory,
            pc,
            opcodes,
            insts,
            sizes,
            i,
        ),
    decreases n,
{
    if n > i {
        lemma_load_rule_settled(decoder, memory, pc, opcodes, insts, sizes, i, (n - 1) as nat);
    }
}

/// Sizes that record the lengths of instructions sum to their total length.
proof fn lemma_size_total_matches(insts: Seq<Instruction>, sizes: Seq<u8>)
    requires
        sizes_match(insts, sizes),
    ensures
        size_total(sizes) == total_length(insts),
    decreases insts.len(),
{
    if insts.len() > 0 {
        assert(sizes_match(insts.drop_last(), sizes.drop_last()));
        lemma_size_total_matches(insts.drop_last(), sizes.drop_last());
    }
}

/// The sizes of a prefix sum to no more than all sizes.
proof fn lemma_size_total_take(sizes: Seq<u8>, k: int)
    requires
        0 <= k <= sizes.len(),
    ensures
        size_total(sizes.take(k)) <= size_total(sizes),
    decreases sizes.len(),
{
    if k < sizes.len() {
        assert(sizes.drop_last().take(k) =~= sizes.take(k));
        lemma_size_total_take(sizes.drop_last(), k);
    } else {
        assert(sizes.take(k) =~= sizes);
    }
}

/// Once following the stream has failed or stopped at a differing opcode,
/// following it further gives the same outcome.
pub proof fn lemma_matched_settled<F: InstructionFactory, M: Memory>(
    decoder: Decoder<F>,
    memory: M,
    pc: u64,
    opcodes: Seq<InstructionOpcode>,
    i: nat,
    n: nat,
)
    requires
        i <= n,
        !(decoder.matched_stream(memory, pc, opcodes, i) is Ok && decoder.matched_stream(
            memory,
            pc,
            opcodes,
            i,
        )->Ok_0 is Some),
    ensures
        decoder.matched_stream(memory, pc, opcodes, n) == decoder.matched_stream(
            memory,
            pc,
            opcodes,
            i,
        ),
    decreases n,
{
    if n > i {
        lemma_matched_settled(decoder, memory, pc, opcodes, i, (n - 1) as nat);
    }
}

/// Following the stream reads memory only through execute loads and the
/// decoder only through its configuration: decoders configured alike give
/// the same outcome on memories that give the same loads.
pub proof fn lemma_matched_same_fetches<F: InstructionFactory, M: Memory>(
    d1: Decoder<F>,
    d2: Decoder<F>,
    m1: M,
    m2: M,
    pc: u64,
    opcodes: Seq<InstructionOpcode>,
    n: nat,
)
    requires
        d1.same_config(d2),
        same_fetches(m1, m2),
    ensures
        d1.matched_stream(m1, pc, opcodes, n) == d2.matched_stream(m2, pc, opcodes, n),
    decreases n,
{
    if n > 0 {
        lemma_matched_same_fetches(d1, d2, m1, m2, pc, opcodes, (n - 1) as nat);
        match d1.matched_stream(m1, pc, opcodes, (n - 1) as nat) {
            Ok(Some(prefix)) => {
                lemma_raw_decoding_same_fetches(d1, d2, m1, m2, (pc + total_length(prefix)) as u64);
            },
            _ => {},
        }
    }
}

/// The outcome of every rule list is the same for decoders configured alike
/// on memories that give the same loads.
pub proof fn lemma_first_fusion_same_fetches<F: InstructionFactory, M: Memory>(
    d1: Decoder<F>,
    d2: Decoder<F>,
    m1: M,
    m2: M,
    pc: u64,
    rules: Seq<(Seq<InstructionOpcode>, u32, Fusion)>,
)
    requires
        d1.same_config(d2),
        same_fetches(m1, m2),
    ensures
        d1.first_fusion(m1, pc, rules) == d2.first_fusion(m2, pc, rules),
    decreases rules.len(),
{
    if rules.len() > 0 {
        lemma_matched_same_fetches(d1, d2, m1, m2, pc, rules[0].0, rules[0].0.len());
        lemma_first_fusion_same_fetches(d1, d2, m1, m2, pc, rules.drop_first());
    }
}

/// Fused and MOP decoding are the same for decoders configured alike on
/// memories that give the same loads.
pub proof fn lemma_mop_decoding_same_fetches<F: InstructionFactory, M: Memory>(
    d1: Decoder<F>,
    d2: Decoder<F>,
    m1: M,
    m2: M,
    pc: u64,
)
    requires
        d1.same_config(d2),
        same_fetches(m1, m2),
    ensures
        d1.fused_decoding(m1, pc) == d2.fused_decoding(m2, pc),
        d1.mop_decoding(m1, pc) == d2.mop_decoding(m2, pc),
{
    lemma_raw_decoding_same_fetches(d1, d2, m1, m2, pc);
    lemma_first_fusion_same_fetches(d1, d2, m1, m2, pc, rule_table());
}

/// A stream prefix stays one on a memory that gives the same loads.
proof fn lemma_stream_prefix_same_fetches<F: InstructionFactory, M: Memory>(
    decoder: Decoder<F>,
    m1: M,
    m2: M,
    pc: u64,
    insts: Seq<Instruction>,
)
    requires
        same_fetches(m1, m2),
        decoder.is_stream_prefix(m1, pc, insts),
    ensures
        decoder.is_stream_prefix(m2, pc, insts),
{
    assert forall|j: int| 0 <= j < insts.len() implies decoder.raw_decoding(
        m2,
        (pc + total_length(#[trigger] insts.take(j))) as u64,
    ) == Ok::<Instruction, Error>(insts[j]) by {
        assert(decoder.raw_decoding(m1, (pc + total_length(insts.take(j))) as u64) == Ok::<
            Instruction,
            Error,
        >(insts[j]));
        lemma_raw_decoding_same_fetches(
            decoder,
            decoder,
            m1,
            m2,
            (pc + total_length(insts.take(j))) as u64,
        );
    }
}

/// A non-empty stream prefix starts inside memory.
proof fn lemma_stream_prefix_in_memory<F: InstructionFactory, M: Memory>(
    decoder: Decoder<F>,
    memory: M,
    pc: u64,
    insts: Seq<Instruction>,
)
    requires
        insts.len() > 0,
        decoder.is_stream_prefix(memory, pc, insts),
    ensures
        (pc as usize) < (memory_limit() as usize),
{
    assert(insts.take(0) =~= Seq::<Instruction>::empty());
    assert(decoder.raw_decoding(memory, (pc + total_length(insts.take(0))) as u64) == Ok::<
        Instruction,
        Error,
    >(insts[0]));
}

/// The opcode of the instruction a fusion makes.
pub open spec fn fused_opcode(fusion: Fusion) -> InstructionOpcode {
    match fusion {
        Fusion::CarryAdd(op) => op,
        Fusion::BorrowSub(op) => op,
        Fusion::WidePair(op) => op,
        Fusion::FarJump(op) => op,
        Fusion::LoadImmediate(op) => op,
    }
}

/// A rule that fuses gives an instruction with the rule's fused opcode,
/// which records as its length the total length of the instructions it
/// replaces (when that total fits the four-bit length field).
pub proof fn lemma_fused_instruction<F: InstructionFactory, M: Memory>(
    decoder: Decoder<F>,
    memory: M,
    pc: u64,
    rule: (Seq<InstructionOpcode>, u32, Fusion),
)
    requires
        decoder.rule_outcome(memory, pc, rule) matches Ok(Some(_)),
    ensures
        ({
            let insts = decoder.matched_stream(memory, pc, rule.0, rule.0.len())->Ok_0->Some_0;
            let inst = decoder.rule_outcome(memory, pc, rule)->Ok_0->Some_0;
            &&& opcode_of(inst) == fused_opcode(rule.2)
            &&& total_length(insts) <= 30 ==> length_of(inst) == total_length(insts)
        }),
{
    let insts = decoder.matched_stream(memory, pc, rule.0, rule.0.len())->Ok_0->Some_0;
    let f = fused(rule.2, insts)->Some_0;
    lemma_total_length_bound(insts);
    crate::instructions::lemma_field_bounds(insts[0]);
    crate::instructions::lemma_field_bounds(insts[1]);
    crate::instructions::lemma_field_bounds(insts[2]);
    match rule.2 {
        Fusion::CarryAdd(op) => {
            crate::instructions::lemma_r4type_fields(op, rd_of(insts[0]), rs2_of(insts[0]), rs2_of(insts[2]), 0);
        },
        Fusion::BorrowSub(op) => {
            crate::instructions::lemma_r4type_fields(op, rs1_of(insts[0]), rd_of(insts[0]), rs2_of(insts[2]), rd_of(insts[1]));
        },
        Fusion::WidePair(op) => {
            crate::instructions::lemma_r4type_fields(op, rd_of(insts[0]), rs1_of(insts[0]), rs2_of(insts[0]), rd_of(insts[1]));
        },
        Fusion::FarJump(op) => {
            crate::instructions::lemma_utype_fields(op, 1, utype_immediate(insts[0]).wrapping_add(itype_immediate(insts[1])));
        },
        Fusion::LoadImmediate(op) => {
            crate::instructions::lemma_utype_fields(op, rd_of(insts[0]), utype_immediate(insts[0]).wrapping_add(itype_immediate(insts[1])));
        },
    }
    if total_length(insts) <= 30 {
        crate::instructions::lemma_with_length(f, total_length(insts) as u8);
    } else {
        crate::instructions::lemma_with_length_opcode(f, total_length(insts) as u8);
    }
}

/// A decoder for a VM version before the first one with fusion rules never
/// fuses: MOP decoding gives the raw decoding.
pub proof fn lemma_no_fusion_before_version_one<F: InstructionFactory, M: Memory>(
    decoder: Decoder<F>,
    memory: M,
    pc: u64,
)
    requires
        decoder.decoder_version() < 1,
    ensures
        decoder.mop_decoding(memory, pc) == decoder.raw_decoding(memory, pc),
{
    lemma_first_fusion_none_below(decoder, memory, pc, rule_table());
}

/// No rule of a list whose rules all need a later version than the
/// decoder's fuses.
proof fn lemma_first_fusion_none_below<F: InstructionFactory, M: Memory>(
    decoder: Decoder<F>,
    memory: M,
    pc: u64,
    rules: Seq<(Seq<InstructionOpcode>, u32, Fusion)>,
)
    requires
        forall|k: int| 0 <= k < rules.len() ==> decoder.decoder_version() < #[trigger] rules[k].1,
    ensures
        decoder.first_fusion(memory, pc, rules) == Ok::<Option<Instruction>, Error>(None),
    decreases rules.len(),
{
    if rules.len() > 0 {
        assert(decoder.decoder_version() < rules[0].1);
        assert forall|k: int| 0 <= k < rules.drop_first().len() implies decoder.decoder_version()
            < #[trigger] rules.drop_first()[k].1 by {
            assert(rules.drop_first()[k] == rules[k + 1]);
        }
        lemma_first_fusion_none_below(decoder, memory, pc, rules.drop_first());
    }
}

/// A wide pair fuses exactly when the second instruction reads the same two
/// sources as the first, and the first's destination is neither source nor
/// the second's destination. The fused instruction has the rule's opcode,
/// the first's destination and sources, and the second's destination.
pub proof fn lemma_wide_pair_fusion(op: InstructionOpcode, insts: Seq<Instruction>)
    requires
        insts.len() >= 2,
    ensures
        fused(Fusion::WidePair(op), insts) is Some <==> (rs1_of(insts[1]) == rs1_of(insts[0])
            && rs2_of(insts[1]) == rs2_of(insts[0]) && rd_of(insts[0]) != rs1_of(insts[0]) && rd_of(
            insts[0],
        ) != rs2_of(insts[0]) && rd_of(insts[0]) != rd_of(insts[1])),
        fused(Fusion::WidePair(op), insts) matches Some(x) ==> {
            &&& opcode_of(x) == op
            &&& rd_of(x) == rd_of(insts[0])
            &&& rs1_of(x) == rs1_of(insts[0])
            &&& rs2_of(x) == rs2_of(insts[0])
            &&& rs3_of(x) == rd_of(insts[1])
            &&& length_of(x) == 0
        },
{
    crate::instructions::lemma_field_bounds(insts[0]);
    crate::instructions::lemma_field_bounds(insts[1]);
    crate::instructions::lemma_r4type_fields(
        op,
        rd_of(insts[0]),
        rs1_of(insts[0]),
        rs2_of(insts[0]),
        rd_of(insts[1]),
    );
}

/// `a + b` wrapped to 32 bits.
pub open spec fn wraps_to(result: i32, a: i32, b: i32) -> bool {
    (result as int - a as int - b as int) % 0x1_0000_0000 == 0
}

/// The wrapping sum of two `i32`s is their sum up to a multiple of `2^32`.
proof fn lemma_wrapping_add(a: i32, b: i32)
    ensures
        wraps_to(a.wrapping_add(b), a, b),
{
}

/// A far jump fuses exactly when the `jalr` links `ra` and jumps from the
/// register the first instruction wrote. The fused instruction has the
/// rule's opcode, links `ra`, and its immediate is the sum of the two
/// immediates (wrapped to 32 bits).
pub proof fn lemma_far_jump_fusion(op: InstructionOpcode, insts: Seq<Instruction>)
    requires
        insts.len() >= 2,
    ensures
        fused(Fusion::FarJump(op), insts) is Some <==> (rd_of(insts[1]) == 1 && rs1_of(insts[1])
            == rd_of(insts[0])),
        fused(Fusion::FarJump(op), insts) matches Some(x) ==> {
            &&& opcode_of(x) == op
            &&& rd_of(x) == 1
            &&& wraps_to(
                utype_immediate(x),
                utype_immediate(insts[0]),
                itype_immediate(insts[1]),
            )
            &&& length_of(x) == 0
        },
{
    let imm = utype_immediate(insts[0]).wrapping_add(itype_immediate(insts[1]));
    lemma_wrapping_add(utype_immediate(insts[0]), itype_immediate(insts[1]));
    crate::instructions::lemma_utype_fields(op, 1, imm);
}

/// A load of an immediate fuses exactly when the `addiw` reads and writes
/// the register the `lui` wrote. The fused instruction has the rule's
/// opcode, writes that register, and its immediate is the sum of the two
/// immediates (wrapped to 32 bits).
pub proof fn lemma_load_immediate_fusion(op: InstructionOpcode, insts: Seq<Instruction>)
    requires
        insts.len() >= 2,
    ensures
        fused(Fusion::LoadImmediate(op), insts) is Some <==> (rd_of(insts[1]) == rd_of(insts[0])
            && rs1_of(insts[1]) == rd_of(insts[0])),
        fused(Fusion::LoadImmediate(op), insts) matches Some(x) ==> {
            &&& opcode_of(x) == op
            &&& rd_of(x) == rd_of(insts[0])
            &&& wraps_to(
                utype_immediate(x),
                utype_immediate(insts[0]),
                itype_immediate(insts[1]),
            )
            &&& length_of(x) == 0
        },
{
    let imm = utype_immediate(insts[0]).wrapping_add(itype_immediate(insts[1]));
    lemma_wrapping_add(utype_immediate(insts[0]), itype_immediate(insts[1]));
    crate::instructions::lemma_field_bounds(insts[0]);
    crate::instructions::lemma_utype_fields(op, rd_of(insts[0]), imm);
}

/// A carry add fuses exactly when the five instructions are
/// `add r0, r0, r1; sltu r1, r0, r1; add r0, r0, r2; sltu r2, r0, r2;
/// or r1, r1, r2` for distinct registers other than `zero`. The fused
/// instruction has the rule's opcode and names `r0`, `r1`, `r2`.
pub proof fn lemma_carry_add_fusion(op: InstructionOpcode, insts: Seq<Instruction>)
    requires
        insts.len() >= 5,
    ensures
        fused(Fusion::CarryAdd(op), insts) is Some <==> (exists|r0: usize, r1: usize, r2: usize|
            {
                &&& has_registers(insts[0], r0, r0, r1)
                &&& has_registers(insts[1], r1, r0, r1)
                &&& has_registers(insts[2], r0, r0, r2)
                &&& has_registers(insts[3], r2, r0, r2)
                &&& has_registers(insts[4], r1, r1, r2)
                &&& r0 != r1 && r0 != r2 && r1 != r2
                &&& r0 != 0 && r1 != 0 && r2 != 0
            }),
        fused(Fusion::CarryAdd(op), insts) matches Some(x) ==> {
            &&& opcode_of(x) == op
            &&& rd_of(x) == rd_of(insts[0])
            &&& rs1_of(x) == rs2_of(insts[0])
            &&& rs2_of(x) == rs2_of(insts[2])
            &&& length_of(x) == 0
        },
{
    crate::instructions::lemma_field_bounds(insts[0]);
    crate::instructions::lemma_field_bounds(insts[2]);
    crate::instructions::lemma_r4type_fields(
        op,
        rd_of(insts[0]),
        rs2_of(insts[0]),
        rs2_of(insts[2]),
        0,
    );
    if fused(Fusion::CarryAdd(op), insts) is Some {
        let r0 = rd_of(insts[0]);
        let r1 = rs2_of(insts[0]);
        let r2 = rs2_of(insts[2]);
        assert(has_registers(insts[0], r0, r0, r1) && has_registers(insts[2], r0, r0, r2));
    }
}

/// A borrow subtract fuses exactly when the five instructions are
/// `sub r1, r0, r1; sltu r3, r0, r1; sub r0, r1, r2; sltu r2, r1, r0;
/// or r1, r2, r3` for distinct registers other than `zero`. The fused
/// instruction has the rule's opcode and names `r0`, `r1`, `r2`, `r3`.
pub proof fn lemma_borrow_sub_fusion(op: InstructionOpcode, insts: Seq<Instruction>)
    requires
        insts.len() >= 5,
    ensures
        fused(Fusion::BorrowSub(op), insts) is Some <==> (exists|
            r0: usize,
            r1: usize,
            r2: usize,
            r3: usize,
        |
            {
                &&& has_registers(insts[0], r1, r0, r1)
                &&& has_registers(insts[1], r3, r0, r1)
                &&& has_registers(insts[2], r0, r1, r2)
                &&& has_registers(insts[3], r2, r1, r0)
                &&& has_registers(insts[4], r1, r2, r3)
                &&& r0 != r1 && r0 != r2 && r0 != r3 && r1 != r2 && r1 != r3 && r2 != r3
                &&& r0 != 0 && r1 != 0 && r2 != 0 && r3 != 0
            }),
        fused(Fusion::BorrowSub(op), insts) matches Some(x) ==> {
            &&& opcode_of(x) == op
            &&& rd_of(x) == rs1_of(insts[0])
            &&& rs1_of(x) == rd_of(insts[0])
            &&& rs2_of(x) == rs2_of(insts[2])
            &&& rs3_of(x) == rd_of(insts[1])
            &&& length_of(x) == 0
        },
{
    crate::instructions::lemma_field_bounds(insts[0]);
    crate::instructions::lemma_field_bounds(insts[1]);
    crate::instructions::lemma_field_bounds(insts[2]);
    crate::instructions::lemma_r4type_fields(
        op,
        rs1_of(insts[0]),
        rd_of(insts[0]),
        rs2_of(insts[2]),
        rd_of(insts[1]),
    );
    if fused(Fusion::BorrowSub(op), insts) is Some {
        let r0 = rs1_of(insts[0]);
        let r1 = rd_of(insts[0]);
        let r2 = rs2_of(insts[2]);
        let r3 = rd_of(insts[1]);
        assert(has_registers(insts[0], r1, r0, r1) && has_registers(insts[1], r3, r0, r1)
            && has_registers(insts[2], r0, r1, r2));
    }
}

/// A rule applies to every VM version from its own on: below it, it gives
/// nothing; from it on, an error of following the stream is returned, a
/// differing opcode gives nothing, and a matched series gives its fusion
/// with the series' total length recorded.
pub proof fn lemma_rule_applies_from_its_version<F: InstructionFactory, M: Memory>(
    decoder: Decoder<F>,
    memory: M,
    pc: u64,
    rule: (Seq<InstructionOpcode>, u32, Fusion),
)
    ensures
        decoder.decoder_version() < rule.1 ==> decoder.rule_outcome(memory, pc, rule) == Ok::<
            Option<Instruction>,
            Error,
        >(None),
        decoder.decoder_version() >= rule.1 ==> (decoder.matched_stream(
            memory,
            pc,
            rule.0,
            rule.0.len(),
        ) matches Err(e) ==> decoder.rule_outcome(memory, pc, rule) == Err::<
            Option<Instruction>,
            Error,
        >(e)),
        decoder.decoder_version() >= rule.1 ==> (decoder.matched_stream(
            memory,
            pc,
            rule.0,
            rule.0.len(),
        ) == Ok::<Option<Seq<Instruction>>, Error>(None) ==> decoder.rule_outcome(memory, pc, rule)
            == Ok::<Option<Instruction>, Error>(None)),
        decoder.decoder_version() >= rule.1 ==> (decoder.matched_stream(
            memory,
            pc,
            rule.0,
            rule.0.len(),
        ) matches Ok(Some(insts)) ==> (fused(rule.2, insts) matches Some(x)
            ==> decoder.rule_outcome(memory, pc, rule) == Ok::<Option<Instruction>, Error>(
            Some(with_length(x, total_length(insts) as u8)),
        ))),
        forall|insts: Seq<Instruction>|
            decoder.decoder_version() >= rule.1 && opcodes_agree(
                insts,
                rule.0,
                if insts.len() < rule.0.len() {
                    insts.len()
                } else {
                    rule.0.len()
                },
            ) ==> #[trigger] decoder.passes_rule_checks(rule, insts),
{
}


/// Every recorded length is at most 30 bytes.
pub proof fn lemma_length_bound(i: Instruction)
    ensures
        length_of(i) <= 30,
        length_of(i) % 2 == 0,
{
    assert(length_of(i) <= 30 && length_of(i) % 2 == 0) by (bit_vector);
}

/// A series of instructions is at most 30 bytes long per instruction.
pub proof fn lemma_total_length_bound(insts: Seq<Instruction>)
    ensures
        total_length(insts) <= 30 * insts.len(),
        total_length(insts) % 2 == 0,
    decreases insts.len(),
{
    if insts.len() > 0 {
        lemma_total_length_bound(insts.drop_last());
        lemma_length_bound(insts.last());
    }
}

/// Fuses `insts`, whose opcodes already match the rule, as `fusion` says.
pub fn fuse(fusion: Fusion, insts: &Vec<Instruction>) -> (r: Option<Instruction>)
    requires
        insts@.len() >= fusion_arity(fusion),
    ensures
        r == fused(fusion, insts@),
{
    match fusion {
        Fusion::CarryAdd(op) => fuse_carry_add(op, insts),
        Fusion::BorrowSub(op) => fuse_borrow_sub(op, insts),
        Fusion::WidePair(op) => fuse_wide_pair(op, insts),
        Fusion::FarJump(op) => fuse_far_jump(op, insts),
        Fusion::LoadImmediate(op) => fuse_load_immediate(op, insts),
    }
}

// add  r0, r0, r1
// sltu r1, r0, r1
// add  r0, r0, r2
// sltu r2, r0, r2
// or   r1, r1, r2
//
// r0 != r1, r0 != r2, r1 != r2, and none of them is x0
fn fuse_carry_add(op: InstructionOpcode, insts: &Vec<Instruction>) -> (r: Option<Instruction>)
    requires
        insts@.len() >= 5,
    ensures
        r == fused(Fusion::CarryAdd(op), insts@),
{
    let i0 = Rtype(insts[0]);
    let i1 = Rtype(insts[1]);
    let i2 = Rtype(insts[2]);
    let i3 = Rtype(insts[3]);
    let i4 = Rtype(insts[4]);
    let zero = reg_zero();

    let r0 = i0.rd();
    let r1 = i0.rs2();
    let r2 = i2.rs2();

    if i0.rd() == r0 && i0.rs1() == r0 && i0.rs2() == r1 && i1.rd() == r1 && i1.rs1() == r0
        && i1.rs2() == r1 && i2.rd() == r0 && i2.rs1() == r0 && i2.rs2() == r2 && i3.rd() == r2
        && i3.rs1() == r0 && i3.rs2() == r2 && i4.rd() == r1 && i4.rs1() == r1 && i4.rs2() == r2
        && r0 != r1 && r0 != r2 && r1 != r2 && r0 != zero && r1 != zero && r2 != zero {
        Some(Rtype::new(op, r0, r1, r2).0)
    } else {
        None
    }
}

// sub  r1, r0, r1
// sltu r3, r0, r1
// sub  r0, r1, r2
// sltu r2, r1, r0
// or   r1, r2, r3
//
// r0, r1, r2, r3 pairwise distinct, and none of them is x0
fn fuse_borrow_sub(op: InstructionOpcode, insts: &Vec<Instruction>) -> (r: Option<Instruction>)
    requires
        insts@.len() >= 5,
    ensures
        r == fused(Fusion::BorrowSub(op), insts@),
{
    let i0 = Rtype(insts[0]);
    let i1 = Rtype(insts[1]);
    let i2 = Rtype(insts[2]);
    let i3 = Rtype(insts[3]);
    let i4 = Rtype(insts[4]);
    let zero = reg_zero();

    let r0 = i0.rs1();
    let r1 = i0.rd();
    let r2 = i2.rs2();
    let r3 = i1.rd();

    if i0.rd() == r1 && i0.rs1() == r0 && i0.rs2() == r1 && i1.rd() == r3 && i1.rs1() == r0
        && i1.rs2() == r1 && i2.rd() == r0 && i2.rs1() == r1 && i2.rs2() == r2 && i3.rd() == r2
        && i3.rs1() == r1 && i3.rs2() == r0 && i4.rd() == r1 && i4.rs1() == r2 && i4.rs2() == r3
        && r0 != r1 && r0 != r2 && r0 != r3 && r1 != r2 && r1 != r3 && r2 != r3 && r0 != zero
        && r1 != zero && r2 != zero && r3 != zero {
        Some(R4type::new(op, r0, r1, r2, r3).0)
    } else {
        None
    }
}

// mulh/mulhu/mulhsu/div/divu r0, r1, r2
// mul/mul/mul/rem/remu       r3, r1, r2
//
// r0 != r1, r0 != r2, r0 != r3
fn fuse_wide_pair(op: InstructionOpcode, insts: &Vec<Instruction>) -> (r: Option<Instruction>)
    requires
        insts@.len() >= 2,
    ensures
        r == fused(Fusion::WidePair(op), insts@),
{
    let i0 = Rtype(insts[0]);
    let i1 = Rtype(insts[1]);

    let r0 = i0.rd();
    let r1 = i0.rs1();
    let r2 = i0.rs2();
    let r3 = i1.rd();

    if i0.rd() == r0 && i0.rs1() == r1 && i0.rs2() == r2 && i1.rd() == r3 && i1.rs1() == r1
        && i1.rs2() == r2 && r0 != r1 && r0 != r2 && r0 != r3 {
        Some(R4type::new(op, r0, r1, r2, r3).0)
    } else {
        None
    }
}

// auipc/lui r0, upper
// jalr      ra, r0, lower
fn fuse_far_jump(op: InstructionOpcode, insts: &Vec<Instruction>) -> (r: Option<Instruction>)
    requires
        insts@.len() >= 2,
    ensures
        r == fused(Fusion::FarJump(op), insts@),
{
    let i0 = Utype(insts[0]);
    let i1 = Itype(insts[1]);
    let ra = reg_ra();

    let r0 = i0.rd();

    if i0.rd() == r0 && i1.rd() == ra && i1.rs1() == r0 {
        let fuze_imm = i0.immediate_s().wrapping_add(i1.immediate_s());
        Some(Utype::new_s(op, ra, fuze_imm).0)
    } else {
        None
    }
}

// lui   r0, upper
// addiw r0, r0, lower
fn fuse_load_immediate(op: InstructionOpcode, insts: &Vec<Instruction>) -> (r: Option<Instruction>)
    requires
        insts@.len() >= 2,
    ensures
        r == fused(Fusion::LoadImmediate(op), insts@),
{
    let i0 = Utype(insts[0]);
    let i1 = Itype(insts[1]);

    let r0 = i0.rd();

    if i0.rd() == r0 && i1.rd() == r0 && i1.rs1() == r0 {
        let fuze_imm = i0.immediate_s().wrapping_add(i1.immediate_s());
        Some(Utype::new_s(op, r0, fuze_imm).0)
    } else {
        None
    }
}

/// Decodes one macro-operation at a PC, borrowing a decoder and a memory.
pub struct MopDecoder<'a, F, M> {
    decoder: &'a mut Decoder<F>,
    memory: &'a mut M,
    pc: u64,
}

impl<'a, F: InstructionFactory, M: Memory> MopDecoder<'a, F, M> {
    /// The borrowed decoder.
    pub closed spec fn decoder_ref(&self) -> &'a mut Decoder<F> {
        self.decoder
    }

    /// The borrowed memory.
    pub closed spec fn memory_ref(&self) -> &'a mut M {
        self.memory
    }

    /// The PC of the macro-operation.
    pub closed spec fn pc_value(&self) -> u64 {
        self.pc
    }

    /// Once a MOP decoder is done with, so are its borrows.
    pub proof fn lemma_borrows_resolved(self)
        requires
            has_resolved(self),
        ensures
            has_resolved(self.decoder_ref()),
            has_resolved(self.memory_ref()),
    {
    }

    /// Starts decoding at `pc`.
    pub fn new(decoder: &'a mut Decoder<F>, memory: &'a mut M, pc: u64) -> (r: Self)
        ensures
            *r.decoder_ref() == *old(decoder),
            *final(r.decoder_ref()) == *final(decoder),
            *r.memory_ref() == *old(memory),
            *final(r.memory_ref()) == *final(memory),
            r.pc_value() == pc,
    {
        Self { decoder, memory, pc }
    }

    /// Decodes the instruction at the PC and tries the fusion rules in
    /// order: the first rule that fuses gives the result; `None` when none
    /// does. Errors of decoding the instructions a rule reads are returned.
    #[verifier::loop_isolation(false)]
    pub fn decode(&mut self) -> (r: Result<Option<Instruction>, Error>)
        ensures
            r == (*old(self).decoder_ref()).fused_decoding(
                *old(self).memory_ref(),
                old(self).pc_value(),
            ),
            *final(self).decoder_ref() == *old(self).decoder_ref(),
            same_fetches(*old(self).memory_ref(), *final(self).memory_ref()),
            final(self).pc_value() == old(self).pc_value(),
            *final(final(self).decoder_ref()) == *final(old(self).decoder_ref()),
            *final(final(self).memory_ref()) == *final(old(self).memory_ref()),
    {
        let ghost d0 = *self.decoder;
        let ghost m0 = *self.memory;
        let pc = self.pc;
        let head_instruction = match self.decoder.decode_raw(self.memory, pc) {
            Ok(i) => i,
            Err(e) => {
                return Err(e);
            },
        };

        let mut insts: Vec<Instruction> = Vec::with_capacity(MAX_INSTS_IN_MOP);
        let mut sizes: Vec<u8> = Vec::with_capacity(MAX_INSTS_IN_MOP);

        insts.push(head_instruction);
        sizes.push(instruction_length(head_instruction));
        proof {
            assert(insts@.take(0) =~= Seq::<Instruction>::empty());
            assert(d0.is_stream_prefix(m0, pc, insts@));
        }

        let rules = rules();
        let mut k: usize = 0;
        assert(rule_table().skip(0) =~= rule_table());
        while k < rules.len()
            invariant
                k <= rules@.len(),
                rules@.len() == rule_table().len(),
                forall|t: int|
                    0 <= t < rules@.len() ==> (#[trigger] rules@[t])@ == rule_table()[t]
                        && rules@[t].wf(),
                d0.first_fusion(m0, pc, rule_table()) == d0.first_fusion(
                    m0,
                    pc,
                    rule_table().skip(k as int),
                ),
                1 <= insts@.len() <= MAX_INSTS_IN_MOP,
                sizes_match(insts@, sizes@),
                d0.is_stream_prefix(m0, pc, insts@),
                *self.decoder == d0,
                same_fetches(m0, *self.memory),
                self.pc == pc,
                *final(self.decoder) == *final(old(self).decoder),
                *final(self.memory) == *final(old(self).memory),
            decreases rules@.len() - k,
        {
            proof {
                assert(rule_table().skip(k as int).drop_first() =~= rule_table().skip(k + 1));
                lemma_size_total_matches(insts@, sizes@);
                lemma_total_length_bound(insts@);
                lemma_stream_prefix_in_memory(d0, m0, pc, insts@);
                lemma_in_memory_no_overflow(pc);
                lemma_stream_prefix_same_fetches(d0, m0, *self.memory, pc, insts@);
                lemma_check_rule_on_stream(
                    d0,
                    *self.memory,
                    pc,
                    rule_table()[k as int],
                    insts@,
                    sizes@,
                );
                lemma_matched_same_fetches(
                    d0,
                    d0,
                    m0,
                    *self.memory,
                    pc,
                    rule_table()[k as int].0,
                    rule_table()[k as int].0.len(),
                );
            }
            match self.check_rule(&rules[k], &mut insts, &mut sizes) {
                Err(e) => {
                    return Err(e);
                },
                Ok(Some(inst)) => {
                    return Ok(Some(inst));
                },
                Ok(None) => {},
            }
            proof {
                lemma_stream_prefix_same_fetches(d0, *self.memory, m0, pc, insts@);
            }
            k += 1;
        }
        Ok(None)
    }

    /// Checks one rule at the PC. `insts` holds the instructions already
    /// loaded from the PC on, `sizes` their sizes; instructions the rule
    /// needs beyond them are decoded at the PC plus the sizes so far, and
    /// appended. A rule for a later VM version, or whose opcodes differ from
    /// the instructions, gives `None`; otherwise the rule's fusion of its
    /// instructions gives the result, with the sum of their sizes as length.
    #[verifier::loop_isolation(false)]
    #[verifier::rlimit(60)]
    pub fn check_rule(
        &mut self,
        rule: &Rule,
        insts: &mut Vec<Instruction>,
        sizes: &mut Vec<u8>,
    ) -> (r: Result<Option<Instruction>, Error>)
        requires
            rule.wf(),
            (*old(self).decoder_ref()).passes_rule_checks(rule@, old(insts)@) ==> {
                &&& old(sizes)@.len() == old(insts)@.len()
                &&& size_total(old(sizes)@) + 30 * loads_needed(
                    rule.opcodes@.len(),
                    old(insts)@.len(),
                ) <= u8::MAX
                &&& old(self).pc_value() + size_total(old(sizes)@) + 30 * loads_needed(
                    rule.opcodes@.len(),
                    old(insts)@.len(),
                ) <= u64::MAX
            },
        ensures
            ({
                let out = (*old(self).decoder_ref()).check_rule_outcome(
                    *old(self).memory_ref(),
                    old(self).pc_value(),
                    rule@,
                    old(insts)@,
                    old(sizes)@,
                );
                &&& r == out.0
                &&& final(insts)@ == out.1
                &&& final(sizes)@ == out.2
            }),
            *final(self).decoder_ref() == *old(self).decoder_ref(),
            same_fetches(*old(self).memory_ref(), *final(self).memory_ref()),
            !((*old(self).decoder_ref()).passes_rule_checks(rule@, old(insts)@) && old(insts)@.len()
                < rule.opcodes@.len()) ==> *final(self).memory_ref() == *old(self).memory_ref(),
            final(self).pc_value() == old(self).pc_value(),
            *final(final(self).decoder_ref()) == *final(old(self).decoder_ref()),
            *final(final(self).memory_ref()) == *final(old(self).memory_ref()),
    {
        let ghost d0 = *self.decoder;
        let ghost m0 = *self.memory;
        let ghost insts0 = insts@;
        let ghost sizes0 = sizes@;
        let ghost ops = rule.opcodes@;
        let pc = self.pc;
        let n = rule.opcodes.len();
        if self.decoder.version() < rule.version {
            return Ok(None);
        }
        let loaded_length = insts.len();
        // Fast path checking loaded instruction's opcodes
        let checked = if loaded_length < n {
            loaded_length
        } else {
            n
        };
        if !opcodes_match(insts, &rule.opcodes, checked) {
            return Ok(None);
        }
        assert(sizes@.take(loaded_length as int) =~= sizes@);
        let mut total_size: u8 = sum_sizes(sizes, loaded_length);

        // Decode new instructions when necessary
        if loaded_length < n {
            let mut i: usize = loaded_length;
            while i < n
                invariant
                    loaded_length <= i <= n,
                    insts@.len() == i,
                    sizes@.len() == i,
                    d0.load_rule(m0, pc, ops, insts0, sizes0, (i - loaded_length) as nat) == (
                        Ok::<bool, Error>(true),
                        insts@,
                        sizes@,
                    ),
                    total_size == size_total(sizes@),
                    size_total(sizes@) + 30 * (n - i) <= size_total(sizes0) + 30 * (n
                        - loaded_length),
                    *self.decoder == d0,
                    same_fetches(m0, *self.memory),
                    self.pc == pc,
                    *final(self.decoder) == *final(old(self).decoder),
                    *final(self.memory) == *final(old(self).memory),
                decreases n - i,
            {
                let addr = pc + total_size as u64;
                let ghost step = (i + 1 - loaded_length) as nat;
                proof {
                    lemma_raw_decoding_same_fetches(d0, d0, m0, *self.memory, addr);
                }
                let instruction = match self.decoder.decode_raw(self.memory, addr) {
                    Ok(inst) => inst,
                    Err(e) => {
                        proof {
                            lemma_load_rule_settled(
                                d0,
                                m0,
                                pc,
                                ops,
                                insts0,
                                sizes0,
                                step,
                                (n - loaded_length) as nat,
                            );
                        }
                        return Err(e);
                    },
                };
                let ghost sizes_before = sizes@;
                insts.push(instruction);
                let size = instruction_length(instruction);
                sizes.push(size);
                proof {
                    lemma_length_bound(instruction);
                    assert(sizes@.drop_last() =~= sizes_before);
                }
                total_size = total_size + size;

                if extract_opcode(instruction) != rule.opcodes[i] {
                    proof {
                        lemma_load_rule_settled(
                            d0,
                            m0,
                            pc,
                            ops,
                            insts0,
                            sizes0,
                            step,
                            (n - loaded_length) as nat,
                        );
                    }
                    return Ok(None);
                }
                i += 1;
            }
        }
        // Testing against the matching function
        let ghost matched = insts@.take(n as int);
        assert(fused(rule.fusion, insts@) == fused(rule.fusion, matched));
        match fuse(rule.fusion, insts) {
            None => Ok(None),
            Some(inst) => {
                proof {
                    lemma_size_total_take(sizes@, n as int);
                }
                let size = sum_sizes(sizes, n);
                Ok(Some(set_instruction_length_n(inst, size)))
            },
        }
    }
}

/// Whether the first `count` instructions have the first `count` opcodes.
fn opcodes_match(insts: &Vec<Instruction>, opcodes: &Vec<InstructionOpcode>, count: usize) -> (r:
    bool)
    requires
        count <= insts@.len(),
        count <= opcodes@.len(),
    ensures
        r == opcodes_agree(insts@, opcodes@, count as nat),
{
    let mut i: usize = 0;
    while i < count
        invariant
            i <= count,
            count <= insts@.len(),
            count <= opcodes@.len(),
            forall|j: int| 0 <= j < i ==> opcode_of(#[trigger] insts@[j]) == opcodes@[j],
        decreases count - i,
    {
        if extract_opcode(insts[i]) != opcodes[i] {
            return false;
        }
        i += 1;
    }
    true
}

/// The sum of the first `count` sizes.
fn sum_sizes(sizes: &Vec<u8>, count: usize) -> (r: u8)
    requires
        count <= sizes@.len(),
        size_total(sizes@.take(count as int)) <= u8::MAX,
    ensures
        r == size_total(sizes@.take(count as int)),
{
    let mut total: u8 = 0;
    let mut j: usize = 0;
    assert(sizes@.take(0) =~= Seq::<u8>::empty());
    while j < count
        invariant
            j <= count,
            count <= sizes@.len(),
            size_total(sizes@.take(count as int)) <= u8::MAX,
            total == size_total(sizes@.take(j as int)),
        decreases count - j,
    {
        proof {
            assert(sizes@.take(j + 1).drop_last() =~= sizes@.take(j as int));
            assert(sizes@.take(count as int).take(j + 1) =~= sizes@.take(j + 1));
            lemma_size_total_take(sizes@.take(count as int), j + 1);
        }
        total = total + sizes[j];
        j += 1;
    }
    total
}

/// The first `count` instructions have the first `count` opcodes.
pub open spec fn opcodes_agree(
    insts: Seq<Instruction>,
    opcodes: Seq<InstructionOpcode>,
    count: nat,
) -> bool {
    forall|j: int| 0 <= j < count ==> opcode_of(#[trigger] insts[j]) == opcodes[j]
}

/// Along a stream prefix, following the stream for `count` opcodes gives
/// the first `count` instructions when their opcodes all match, else `None`.
#[verifier::rlimit(40)]
proof fn lemma_matched_prefix<F: InstructionFactory, M: Memory>(
    decoder: Decoder<F>,
    memory: M,
    pc: u64,
    opcodes: Seq<InstructionOpcode>,
    insts: Seq<Instruction>,
    count: nat,
)
    requires
        decoder.is_stream_prefix(memory, pc, insts),
        count <= insts.len(),
        count <= opcodes.len(),
    ensures
        decoder.matched_stream(memory, pc, opcodes, count) == if opcodes_agree(
            insts,
            opcodes,
            count,
        ) {
            Ok::<Option<Seq<Instruction>>, Error>(Some(insts.take(count as int)))
        } else {
            Ok::<Option<Seq<Instruction>>, Error>(None)
        },
    decreases count,
{
    if count == 0 {
        assert(insts.take(0) =~= Seq::<Instruction>::empty());
    } else {
        let k = (count - 1) as nat;
        lemma_matched_prefix(decoder, memory, pc, opcodes, insts, k);
        assert(opcodes_agree(insts, opcodes, count) == (opcodes_agree(insts, opcodes, k)
            && opcode_of(insts[k as int]) == opcodes[k as int]));
        if opcodes_agree(insts, opcodes, k) {
            assert(insts.take(k as int).push(insts[k as int]) =~= insts.take(count as int));
            assert(decoder.raw_decoding(memory, (pc + total_length(insts.take(k as int))) as u64)
                == Ok::<Instruction, Error>(insts[k as int]));
        }
    }
}

/// `check_rule`'s decoding only appends: an instruction and its length at
/// a time, at most `steps` of them.
proof fn lemma_load_rule_shape<F: InstructionFactory, M: Memory>(
    decoder: Decoder<F>,
    memory: M,
    pc: u64,
    opcodes: Seq<InstructionOpcode>,
    insts: Seq<Instruction>,
    sizes: Seq<u8>,
    steps: nat,
)
    ensures
        ({
            let out = decoder.load_rule(memory, pc, opcodes, insts, sizes, steps);
            &&& insts.len() <= out.1.len() <= insts.len() + steps
            &&& out.1.len() - insts.len() == out.2.len() - sizes.len()
            &&& out.1.take(insts.len() as int) == insts
            &&& out.2.take(sizes.len() as int) == sizes
            &&& sizes_match(insts, sizes) ==> sizes_match(out.1, out.2)
        }),
    decreases steps,
{
    if steps == 0 {
        assert(insts.take(insts.len() as int) =~= insts);
        assert(sizes.take(sizes.len() as int) =~= sizes);
    } else {
        lemma_load_rule_shape(decoder, memory, pc, opcodes, insts, sizes, (steps - 1) as nat);
        let prev = decoder.load_rule(memory, pc, opcodes, insts, sizes, (steps - 1) as nat);
        if prev.0 == Ok::<bool, Error>(true) {
            match decoder.raw_decoding(memory, (pc + size_total(prev.2)) as u64) {
                Err(_) => {},
                Ok(inst) => {
                    assert(prev.1.push(inst).take(insts.len() as int) =~= prev.1.take(
                        insts.len() as int,
                    ));
                    assert(prev.2.push(length_of(inst)).take(sizes.len() as int) =~= prev.2.take(
                        sizes.len() as int,
                    ));
                    if sizes_match(insts, sizes) {
                        assert(sizes_match(prev.1.push(inst), prev.2.push(length_of(inst))));
                    }
                },
            }
        }
    }
}

/// `check_rule` only appends to its vectors, and never beyond the longer of
/// what was loaded and the rule; when each size was the length of its
/// instruction, that stays so.
pub proof fn lemma_check_rule_keeps_sizes<F: InstructionFactory, M: Memory>(
    decoder: Decoder<F>,
    memory: M,
    pc: u64,
    rule: (Seq<InstructionOpcode>, u32, Fusion),
    insts: Seq<Instruction>,
    sizes: Seq<u8>,
)
    ensures
        ({
            let out = decoder.check_rule_outcome(memory, pc, rule, insts, sizes);
            &&& out.1.take(insts.len() as int) == insts
            &&& out.2.take(sizes.len() as int) == sizes
            &&& out.1.len() - insts.len() == out.2.len() - sizes.len()
            &&& insts.len() <= out.1.len()
            &&& out.1.len() <= (if insts.len() < rule.0.len() {
                rule.0.len()
            } else {
                insts.len()
            })
            &&& sizes_match(insts, sizes) ==> sizes_match(out.1, out.2)
        }),
{
    assert(insts.take(insts.len() as int) =~= insts);
    assert(sizes.take(sizes.len() as int) =~= sizes);
    if decoder.passes_rule_checks(rule, insts) {
        lemma_load_rule_shape(
            decoder,
            memory,
            pc,
            rule.0,
            insts,
            sizes,
            loads_needed(rule.0.len(), insts.len()),
        );
    }
}

/// On a stream prefix whose sizes are the instructions' lengths,
/// `check_rule`'s decoding continues the stream, and its outcome is that of
/// following the stream for as many opcodes.
proof fn lemma_load_rule_on_stream<F: InstructionFactory, M: Memory>(
    decoder: Decoder<F>,
    memory: M,
    pc: u64,
    opcodes: Seq<InstructionOpcode>,
    insts: Seq<Instruction>,
    sizes: Seq<u8>,
    steps: nat,
)
    requires
        decoder.is_stream_prefix(memory, pc, insts),
        sizes_match(insts, sizes),
        insts.len() + steps <= opcodes.len(),
        decoder.matched_stream(memory, pc, opcodes, insts.len()) == Ok::<
            Option<Seq<Instruction>>,
            Error,
        >(Some(insts)),
    ensures
        ({
            let out = decoder.load_rule(memory, pc, opcodes, insts, sizes, steps);
            &&& sizes_match(out.1, out.2)
            &&& decoder.is_stream_prefix(memory, pc, out.1)
            &&& insts.len() <= out.1.len() <= insts.len() + steps
            &&& out.1.take(insts.len() as int) == insts
            &&& (out.0 == Ok::<bool, Error>(true) ==> out.1.len() == insts.len() + steps)
            &&& decoder.matched_stream(memory, pc, opcodes, insts.len() + steps) == match out.0 {
                Ok(true) => Ok::<Option<Seq<Instruction>>, Error>(Some(out.1)),
                Ok(false) => Ok::<Option<Seq<Instruction>>, Error>(None),
                Err(e) => Err::<Option<Seq<Instruction>>, Error>(e),
            }
        }),
    decreases steps,
{
    if steps == 0 {
        assert(insts.take(insts.len() as int) =~= insts);
    } else {
        let k = (steps - 1) as nat;
        lemma_load_rule_on_stream(decoder, memory, pc, opcodes, insts, sizes, k);
        let prev = decoder.load_rule(memory, pc, opcodes, insts, sizes, k);
        if prev.0 == Ok::<bool, Error>(true) {
            lemma_size_total_matches(prev.1, prev.2);
            let addr = (pc + size_total(prev.2)) as u64;
            match decoder.raw_decoding(memory, addr) {
                Err(e) => {},
                Ok(inst) => {
                    lemma_stream_prefix_push(decoder, memory, pc, prev.1, inst);
                    let longer = prev.1.push(inst);
                    let longer_sizes = prev.2.push(length_of(inst));
                    assert(sizes_match(longer, longer_sizes));
                    assert(longer.take(insts.len() as int) =~= prev.1.take(insts.len() as int));
                },
            }
        } else {
            lemma_matched_settled(
                decoder,
                memory,
                pc,
                opcodes,
                insts.len() + k,
                insts.len() + steps,
            );
        }
    }
}

/// On a stream prefix of at most five instructions whose sizes are their
/// lengths, `check_rule` gives the rule's outcome on the stream, and leaves
/// a stream prefix of at most five instructions with matching sizes.
pub proof fn lemma_check_rule_on_stream<F: InstructionFactory, M: Memory>(
    decoder: Decoder<F>,
    memory: M,
    pc: u64,
    rule: (Seq<InstructionOpcode>, u32, Fusion),
    insts: Seq<Instruction>,
    sizes: Seq<u8>,
)
    requires
        rule.0.len() == fusion_arity(rule.2),
        decoder.is_stream_prefix(memory, pc, insts),
        sizes_match(insts, sizes),
        insts.len() <= MAX_INSTS_IN_MOP,
    ensures
        ({
            let out = decoder.check_rule_outcome(memory, pc, rule, insts, sizes);
            &&& out.0 == decoder.rule_outcome(memory, pc, rule)
            &&& sizes_match(out.1, out.2)
            &&& decoder.is_stream_prefix(memory, pc, out.1)
            &&& insts.len() <= out.1.len() <= MAX_INSTS_IN_MOP
        }),
{
    let n = rule.0.len();
    let checked = if insts.len() < n {
        insts.len()
    } else {
        n
    };
    if decoder.decoder_version() >= rule.1 {
        lemma_matched_prefix(decoder, memory, pc, rule.0, insts, checked);
        if !opcodes_agree(insts, rule.0, checked) {
            lemma_matched_settled(decoder, memory, pc, rule.0, checked, n);
        } else if insts.len() >= n {
            assert(sizes_match(insts.take(n as int), sizes.take(n as int)));
            lemma_size_total_matches(insts.take(n as int), sizes.take(n as int));
            assert(decoder.load_rule(memory, pc, rule.0, insts, sizes, 0) == (
                Ok::<bool, Error>(true),
                insts,
                sizes,
            ));
        } else {
            assert(insts.take(insts.len() as int) =~= insts);
            let steps = (n - insts.len()) as nat;
            lemma_load_rule_on_stream(decoder, memory, pc, rule.0, insts, sizes, steps);
            let out = decoder.load_rule(memory, pc, rule.0, insts, sizes, steps);
            if out.0 == Ok::<bool, Error>(true) {
                assert(out.1.take(n as int) =~= out.1);
                assert(out.2.take(n as int) =~= out.2);
                lemma_size_total_matches(out.1, out.2);
            }
        }
    }
}

/// Appending the instruction decoded right after a stream prefix gives a
/// stream prefix.
proof fn lemma_stream_prefix_push<F: InstructionFactory, M: Memory>(
    decoder: Decoder<F>,
    memory: M,
    pc: u64,
    insts: Seq<Instruction>,
    next: Instruction,
)
    requires
        decoder.is_stream_prefix(memory, pc, insts),
        decoder.raw_decoding(memory, (pc + total_length(insts)) as u64) == Ok::<Instruction, Error>(
            next,
        ),
    ensures
        decoder.is_stream_prefix(memory, pc, insts.push(next)),
        total_length(insts.push(next)) == total_length(insts) + length_of(next),
{
    let longer = insts.push(next);
    assert(longer.drop_last() =~= insts);
    assert forall|j: int| 0 <= j < longer.len() implies decoder.raw_decoding(
        memory,
        (pc + total_length(#[trigger] longer.take(j))) as u64,
    ) == Ok::<Instruction, Error>(longer[j]) by {
        if j < insts.len() {
            assert(longer.take(j) =~= insts.take(j));
            assert(decoder.raw_decoding(memory, (pc + total_length(insts.take(j))) as u64) == Ok::<
                Instruction,
                Error,
            >(insts[j]));
        } else {
            assert(longer.take(j) =~= insts);
        }
    }
}

/// Builds the opcode list of a two-instruction rule.
fn opcodes2(a: InstructionOpcode, b: InstructionOpcode) -> (r: Vec<InstructionOpcode>)
    ensures
        r@ == seq![a, b],
{
    let mut v = Vec::new();
    v.push(a);
    v.push(b);
    v
}

/// Builds the opcode list of a five-instruction rule.
fn opcodes5(
    a: InstructionOpcode,
    b: InstructionOpcode,
    c: InstructionOpcode,
    d: InstructionOpcode,
    e: InstructionOpcode,
) -> (r: Vec<InstructionOpcode>)
    ensures
        r@ == seq![a, b, c, d, e],
{
    let mut v = Vec::new();
    v.push(a);
    v.push(b);
    v.push(c);
    v.push(d);
    v.push(e);
    v
}

/// The fusion rules, in the order they are tried.
pub fn rules() -> (r: Vec<Rule>)
    ensures
        r@.len() == rule_table().len(),
        forall|k: int| 0 <= k < r@.len() ==> (#[trigger] r@[k])@ == rule_table()[k] && r@[k].wf(),
{
    let mut r: Vec<Rule> = Vec::new();
    r.push(
        Rule {
            opcodes: opcodes5(op_add(), op_sltu(), op_add(), op_sltu(), op_or()),
            version: 1,
            fusion: Fusion::CarryAdd(op_adc()),
        },
    );
    r.push(
        Rule {
            opcodes: opcodes5(op_sub(), op_sltu(), op_sub(), op_sltu(), op_or()),
            version: 1,
            fusion: Fusion::BorrowSub(op_sbb()),
        },
    );
    r.push(
        Rule {
            opcodes: opcodes2(op_mulh(), op_mul()),
            version: 1,
            fusion: Fusion::WidePair(op_wide_mul()),
        },
    );
    r.push(
        Rule {
            opcodes: opcodes2(op_mulhu(), op_mul()),
            version: 1,
            fusion: Fusion::WidePair(op_wide_mulu()),
        },
    );
    r.push(
        Rule {
            opcodes: opcodes2(op_mulhsu(), op_mul()),
            version: 1,
            fusion: Fusion::WidePair(op_wide_mulsu()),
        },
    );
    r.push(
        Rule {
            opcodes: opcodes2(op_div(), op_rem()),
            version: 1,
            fusion: Fusion::WidePair(op_wide_div()),
        },
    );
    r.push(
        Rule {
            opcodes: opcodes2(op_divu(), op_remu()),
            version: 1,
            fusion: Fusion::WidePair(op_wide_divu()),
        },
    );
    r.push(
        Rule {
            opcodes: opcodes2(op_auipc(), op_jalr_version1()),
            version: 1,
            fusion: Fusion::FarJump(op_far_jump_rel()),
        },
    );
    r.push(
        Rule {
            opcodes: opcodes2(op_lui(), op_jalr_version1()),
            version: 1,
            fusion: Fusion::FarJump(op_far_jump_abs()),
        },
    );
    r.push(
        Rule {
            opcodes: opcodes2(op_lui(), op_addiw()),
            version: 1,
            fusion: Fusion::LoadImmediate(op_custom_load_imm()),
        },
    );
    assert(r@.len() == rule_table().len());
    r
}

/// No rule reads more than `MAX_INSTS_IN_MOP` instructions, and one reads
/// exactly that many.
pub proof fn lemma_max_insts_in_mop()
    ensures
        forall|k: int|
            0 <= k < rule_table().len() ==> #[trigger] rule_table()[k].0.len() <= MAX_INSTS_IN_MOP,
        exists|k: int| 0 <= k < rule_table().len() && #[trigger] rule_table()[k].0.len() == MAX_INSTS_IN_MOP,
{
    assert(rule_table()[0].0.len() == MAX_INSTS_IN_MOP);
}

} // verus!
