//! The instruction decoder: loads instruction bits at a PC, hands them to
//! the registered instruction factories, optionally fuses macro-operations,
//! and caches decoded instructions by PC.
use vstd::prelude::*;

use crate::definitions::{isa_b, isa_mop, riscv_max_memory, riscv_pagesize};
use crate::error::Error;
use crate::instructions::{Instruction, InstructionFactory};
use crate::memory::{same_fetches, Memory};

use self::mop_rules::{lemma_mop_decoding_same_fetches, MopDecoder};

pub mod mop_rules;

verus! {

/// Number of slots in the decoded-instruction cache.
pub const INSTRUCTION_CACHE_SIZE: usize = 4096;

/// The size of the machine's memory (`RISCV_MAX_MEMORY`): no instruction is
/// decoded at or above it.
pub open spec fn memory_limit() -> u64 {
    0x40_0000
}

/// The content of an empty cache slot: the PC `memory_limit()`, which no
/// successful decoding has.
pub open spec fn empty_slot() -> (u64, u64) {
    (memory_limit(), 0)
}

/// The instruction bits at `pc` as the decoder loads them.
///
/// When at least four bytes of the page remain after `pc`, one 32-bit load
/// is made and its upper half dropped unless the low two bits are `0b11`
/// (a 32-bit instruction). Otherwise a 16-bit load is made, followed by a
/// second one at `pc + 2` when the first announces a 32-bit instruction.
pub open spec fn fetched_bits<M: Memory>(memory: M, pc: u64) -> Result<u32, Error> {
    if pc % 4096 < 4094 {
        match memory.spec_execute_load32(pc) {
            Ok(w) => Ok(
                if w & 3 != 3 {
                    w & 0xffff
                } else {
                    w
                },
            ),
            Err(e) => Err(e),
        }
    } else {
        fetched_by_halves(memory, pc)
    }
}

/// The instruction bits at `pc` read 16 bits at a time: the upper half is
/// read only when the lower half announces a 32-bit instruction.
pub open spec fn fetched_by_halves<M: Memory>(memory: M, pc: u64) -> Result<u32, Error> {
    match memory.spec_execute_load16(pc) {
        Ok(lo) => if lo & 3 == 3 {
            match memory.spec_execute_load16((pc + 2) as u64) {
                Ok(hi) => Ok((lo as u32) | ((hi as u32) << 16u32)),
                Err(e) => Err(e),
            }
        } else {
            Ok(lo as u32)
        },
        Err(e) => Err(e),
    }
}

/// The first result that a factory of `factories`, tried in order, gives
/// for these bits.
pub open spec fn first_decoded<F: InstructionFactory>(
    factories: Seq<F>,
    bits: u32,
    version: u32,
) -> Option<Instruction>
    decreases factories.len(),
{
    if factories.len() == 0 {
        None
    } else {
        match factories[0].spec_decode(bits, version) {
            Some(i) => Some(i),
            None => first_decoded(factories.drop_first(), bits, version),
        }
    }
}

/// The memory's 32-bit load at `pc` agrees with its 16-bit loads there: it
/// gives the two halves joined, and fails as the first half does; the
/// second half loads whenever the first does.
/// Memory whose access rights are per page has this for every `pc` with
/// four bytes left in its page.
pub open spec fn loads_agree_at<M: Memory>(memory: M, pc: u64) -> bool {
    match memory.spec_execute_load16(pc) {
        Ok(lo) => match memory.spec_execute_load16((pc + 2) as u64) {
            Ok(hi) => memory.spec_execute_load32(pc) == Ok::<u32, Error>(
                (lo as u32) | ((hi as u32) << 16u32),
            ),
            Err(_) => false,
        },
        Err(e) => memory.spec_execute_load32(pc) == Err::<u32, Error>(e),
    }
}

/// The cache slot for `pc`. The lowest bit of a PC is always zero, so the
/// slot mixes bits 1 to 8 of the PC, which tell local code apart, with bits
/// 13 to 16, which tell apart distant regions such as called functions.
pub open spec fn cache_slot(pc: u64) -> int {
    ((((pc >> 1u64) & 0xffu64) | (((pc >> 1u64) >> 12u64) << 8u64)) as usize % 4096usize) as int
}

/// Decodes instructions from memory for a VM of one version.
pub struct Decoder<F> {
    factories: Vec<F>,
    mop: bool,
    version: u32,
    // Decoded instructions by PC: slot `cache_slot(pc)` holds `(pc, instruction)`.
    instructions_cache: [(u64, u64); INSTRUCTION_CACHE_SIZE],
}

impl<F: InstructionFactory> Decoder<F> {
    /// The registered factories, in the order they are tried.
    pub closed spec fn factory_list(&self) -> Seq<F> {
        self.factories@
    }

    /// Whether macro-operation fusion is on.
    pub closed spec fn mop_enabled(&self) -> bool {
        self.mop
    }

    /// The VM version the decoder decodes for.
    pub closed spec fn decoder_version(&self) -> u32 {
        self.version
    }

    /// The cache slots.
    pub closed spec fn cache(&self) -> Seq<(u64, u64)> {
        self.instructions_cache@
    }

    /// The decoder is configured as `other`: same factories, fusion setting
    /// and version.
    pub open spec fn same_config(&self, other: Self) -> bool {
        &&& self.factory_list() == other.factory_list()
        &&& self.mop_enabled() == other.mop_enabled()
        &&& self.decoder_version() == other.decoder_version()
    }

    /// Every cache slot is empty.
    pub open spec fn cache_is_empty(&self) -> bool {
        &&& self.cache().len() == INSTRUCTION_CACHE_SIZE
        &&& forall|k: int| 0 <= k < INSTRUCTION_CACHE_SIZE ==> #[trigger] self.cache()[k] == empty_slot()
    }

    /// What `decode_raw` gives at `pc`: `MemOutOfBound` outside memory, the
    /// load's error if loading fails, else the first factory's result for
    /// the loaded bits, or `InvalidInstruction` when none recognises them.
    pub open spec fn raw_decoding<M: Memory>(&self, memory: M, pc: u64) -> Result<Instruction, Error> {
        if (pc as usize) >= (memory_limit() as usize) {
            Err(Error::MemOutOfBound)
        } else {
            match fetched_bits(memory, pc) {
                Err(e) => Err(e),
                Ok(bits) => match first_decoded(self.factory_list(), bits, self.decoder_version()) {
                    Some(i) => Ok(i),
                    None => Err(Error::InvalidInstruction { pc, instruction: bits }),
                },
            }
        }
    }

    /// What decoding at `pc` gives when the cache is bypassed: fused
    /// decoding when fusion is on, else raw decoding.
    pub open spec fn uncached_decoding<M: Memory>(&self, memory: M, pc: u64) -> Result<
        Instruction,
        Error,
    > {
        if self.mop_enabled() {
            self.mop_decoding(memory, pc)
        } else {
            self.raw_decoding(memory, pc)
        }
    }

    /// What `decode` gives at `pc` with the cache slots `cache`:
    /// `MemOutOfBound` outside memory, the cached instruction when the slot
    /// of `pc` holds `pc`, else the uncached decoding.
    pub open spec fn decoding_with<M: Memory>(
        &self,
        cache: Seq<(u64, u64)>,
        memory: M,
        pc: u64,
    ) -> Result<Instruction, Error> {
        if (pc as usize) >= (memory_limit() as usize) {
            Err(Error::MemOutOfBound)
        } else if cache[cache_slot(pc)].0 == pc {
            Ok(cache[cache_slot(pc)].1)
        } else {
            self.uncached_decoding(memory, pc)
        }
    }

    /// The cache slots after `decode` at `pc` from the slots `cache`: on a
    /// miss inside memory that decodes, the slot of `pc` holds `pc` and its
    /// instruction; otherwise unchanged.
    pub open spec fn cache_after_with<M: Memory>(
        &self,
        cache: Seq<(u64, u64)>,
        memory: M,
        pc: u64,
    ) -> Seq<(u64, u64)> {
        let slot = cache_slot(pc);
        if (pc as usize) >= (memory_limit() as usize) || cache[slot].0 == pc {
            cache
        } else {
            match self.uncached_decoding(memory, pc) {
                Ok(i) => cache.update(slot, (pc, i)),
                Err(_) => cache,
            }
        }
    }

    /// Every filled slot of `cache` holds what uncached decoding gives at
    /// its PC on `memory`.
    pub open spec fn consistent_with<M: Memory>(&self, cache: Seq<(u64, u64)>, memory: M) -> bool {
        forall|k: int|
            0 <= k < cache.len() ==> #[trigger] cache[k] == empty_slot() || self.uncached_decoding(
                memory,
                cache[k].0,
            ) == Ok::<Instruction, Error>(cache[k].1)
    }

    /// What `decode` at each of `pcs` in turn gives, from the slots `cache`,
    /// on a memory whose execute loads stay as `memory`'s.
    pub open spec fn decoding_run<M: Memory>(
        &self,
        cache: Seq<(u64, u64)>,
        memory: M,
        pcs: Seq<u64>,
    ) -> Seq<Result<Instruction, Error>>
        decreases pcs.len(),
    {
        if pcs.len() == 0 {
            Seq::empty()
        } else {
            seq![self.decoding_with(cache, memory, pcs[0])] + self.decoding_run(
                self.cache_after_with(cache, memory, pcs[0]),
                memory,
                pcs.drop_first(),
            )
        }
    }

    /// What `decode` gives at `pc` from this decoder's cache.
    pub open spec fn cached_decoding<M: Memory>(&self, memory: M, pc: u64) -> Result<
        Instruction,
        Error,
    > {
        self.decoding_with(self.cache(), memory, pc)
    }

    /// This decoder's cache after `decode` at `pc`.
    pub open spec fn cache_after<M: Memory>(&self, memory: M, pc: u64) -> Seq<(u64, u64)> {
        self.cache_after_with(self.cache(), memory, pc)
    }

    /// Every filled slot of this decoder's cache holds what uncached
    /// decoding gives at its PC on `memory`.
    pub open spec fn cache_consistent<M: Memory>(&self, memory: M) -> bool {
        self.consistent_with(self.cache(), memory)
    }

    /// The cache always has `INSTRUCTION_CACHE_SIZE` slots.
    pub proof fn lemma_cache_len(&self)
        ensures
            self.cache().len() == INSTRUCTION_CACHE_SIZE,
    {
    }

    /// Creates a decoder with no factories and an empty cache.
    pub fn new(mop: bool, version: u32) -> (r: Decoder<F>)
        ensures
            r.factory_list() == Seq::<F>::empty(),
            r.mop_enabled() == mop,
            r.decoder_version() == version,
            r.cache_is_empty(),
    {
        let empty = (riscv_max_memory() as u64, 0u64);
        Decoder {
            factories: Vec::new(),
            mop,
            version,
            instructions_cache: [empty; INSTRUCTION_CACHE_SIZE],
        }
    }

    /// The VM version the decoder decodes for.
    pub fn version(&self) -> (r: u32)
        ensures
            r == self.decoder_version(),
    {
        self.version
    }

    /// Registers a factory after those already registered.
    pub fn add_instruction_factory(&mut self, factory: F)
        ensures
            final(self).factory_list() == old(self).factory_list().push(factory),
            final(self).mop_enabled() == old(self).mop_enabled(),
            final(self).decoder_version() == old(self).decoder_version(),
            final(self).cache() == old(self).cache(),
    {
        self.factories.push(factory);
    }

    // Loads the instruction bits at `pc`.
    //
    // The format of a 32-bit RISC-V instruction is
    //
    //     WWWWWWWWZZZZZZZZYYYYYYYYXXXXXX11
    //
    // and that of a 16-bit (RVC) instruction one of
    //
    //     YYYYYYYYXXXXXX00, YYYYYYYYXXXXXX01, YYYYYYYYXXXXXX10.
    //
    // In little-endian memory the first byte is the least significant one
    // in both cases, so the low two bits of the first 16 bits tell how many
    // bytes the instruction has. Casting an RVC instruction to 32 bits keeps
    // its meaning. When the 4 bytes at `pc` lie in one page a single 32-bit
    // load is made; at the last two bytes of a page two 16-bit loads are
    // made, the second only for a 32-bit instruction.
    fn decode_bits<M: Memory>(&self, memory: &mut M, pc: u64) -> (r: Result<u32, Error>)
        requires
            (pc as usize) < (memory_limit() as usize),
        ensures
            r == fetched_bits(*old(memory), pc),
            same_fetches(*old(memory), *final(memory)),
    {
        let page_mask = (riscv_pagesize() as u64) - 1;
        proof {
            lemma_page_offset(pc);
        }
        if pc & page_mask < page_mask - 1 {
            match memory.execute_load32(pc) {
                Ok(bits) => {
                    let mut instruction_bits = bits;
                    if instruction_bits & 0x3 != 0x3 {
                        instruction_bits &= 0xffff;
                    }
                    Ok(instruction_bits)
                },
                Err(e) => Err(e),
            }
        } else {
            match memory.execute_load16(pc) {
                Ok(lo) => {
                    let mut instruction_bits = lo as u32;
                    if instruction_bits & 0x3 == 0x3 {
                        proof {
                            lemma_in_memory_no_overflow(pc);
                            assert((lo as u32) & 3 == lo & 3) by (bit_vector);
                        }
                        match memory.execute_load16(pc + 2) {
                            Ok(hi) => {
                                instruction_bits |= (hi as u32) << 16;
                            },
                            Err(e) => {
                                return Err(e);
                            },
                        }
                    } else {
                        proof {
                            assert((lo as u32) & 3 == lo & 3) by (bit_vector);
                        }
                    }
                    Ok(instruction_bits)
                },
                Err(e) => Err(e),
            }
        }
    }

    /// Decodes the instruction at `pc` without fusion or cache: the first
    /// registered factory that recognises the loaded bits decides.
    #[verifier::loop_isolation(false)]
    pub fn decode_raw<M: Memory>(&mut self, memory: &mut M, pc: u64) -> (r: Result<Instruction, Error>)
        ensures
            r == old(self).raw_decoding(*old(memory), pc),
            *final(self) == *old(self),
            same_fetches(*old(memory), *final(memory)),
            (pc as usize) >= (memory_limit() as usize) ==> *final(memory) == *old(memory),
    {
        if (#[verifier::truncate] (pc as usize)) >= riscv_max_memory() {
            return Err(Error::MemOutOfBound);
        }
        let instruction_bits = match self.decode_bits(memory, pc) {
            Ok(bits) => bits,
            Err(e) => {
                return Err(e);
            },
        };
        let n = self.factories.len();
        let mut k: usize = 0;
        assert(self.factories@.skip(0) =~= self.factories@);
        while k < n
            invariant
                n == self.factories@.len(),
                k <= n,
                first_decoded(self.factories@, instruction_bits, self.version) == first_decoded(
                    self.factories@.skip(k as int),
                    instruction_bits,
                    self.version,
                ),
            decreases n - k,
        {
            let found = self.factories[k].decode(instruction_bits, self.version);
            assert(self.factories@.skip(k as int).drop_first() =~= self.factories@.skip(
                (k + 1) as int,
            ));
            match found {
                Some(instruction) => {
                    return Ok(instruction);
                },
                None => {},
            }
            k += 1;
        }
        Err(Error::InvalidInstruction { pc, instruction: instruction_bits })
    }

    /// Decodes the instruction at `pc` with macro-operation fusion: the
    /// first fusion rule that applies gives the result, else the raw
    /// decoding.
    pub fn decode_mop<M: Memory>(&mut self, memory: &mut M, pc: u64) -> (r: Result<
        Instruction,
        Error,
    >)
        ensures
            r == old(self).mop_decoding(*old(memory), pc),
            *final(self) == *old(self),
            same_fetches(*old(memory), *final(memory)),
    {
        let ghost d0 = *self;
        let ghost m0 = *memory;
        let mut mop_decoder = MopDecoder::new(self, memory, pc);
        let fused = mop_decoder.decode();
        proof {
            assert(has_resolved(mop_decoder));
            mop_decoder.lemma_borrows_resolved();
        }
        match fused {
            Err(e) => Err(e),
            Ok(Some(i)) => Ok(i),
            Ok(None) => {
                let r = self.decode_raw(memory, pc);
                proof {
                    lemma_raw_decoding_same_fetches(d0, d0, m0, *old(memory), pc);
                }
                r
            },
        }
    }

    /// Decodes the instruction at `pc` through the cache: a PC outside memory
    /// gives `MemOutOfBound`; a slot that holds `pc` answers at once;
    /// otherwise the instruction is decoded (with fusion when it is on) and,
    /// when decoding succeeds, stored in the slot.
    ///
    /// On a cache whose filled slots hold what decoding gives on this memory,
    /// the cache changes no result, and the cache stays so.
    pub fn decode<M: Memory>(&mut self, memory: &mut M, pc: u64) -> (r: Result<Instruction, Error>)
        ensures
            r == old(self).cached_decoding(*old(memory), pc),
            final(self).cache() == old(self).cache_after(*old(memory), pc),
            final(self).same_config(*old(self)),
            same_fetches(*old(memory), *final(memory)),
            (pc as usize) >= (memory_limit() as usize) || old(self).cache()[cache_slot(pc)].0 == pc
                ==> *final(memory) == *old(memory),
            !old(self).mop_enabled() && old(self).cache_consistent(*old(memory)) ==> r == old(
                self,
            ).raw_decoding(*old(memory), pc),
            (pc as usize) >= (memory_limit() as usize) ==> r == Err::<Instruction, Error>(
                Error::MemOutOfBound,
            ),
            old(self).cache_consistent(*old(memory)) ==> r == old(self).uncached_decoding(
                *old(memory),
                pc,
            ),
            old(self).cache_consistent(*old(memory)) ==> final(self).cache_consistent(
                *final(memory),
            ),
    {
        if (#[verifier::truncate] (pc as usize)) >= riscv_max_memory() {
            return Err(Error::MemOutOfBound);
        }
        let instruction_cache_key = {
            // according to RISC-V instruction encoding, the lowest bit in PC will always be zero
            let addr = pc >> 1;
            // Here we try to balance between local code and remote code. At times,
            // we can find the code jumping to a remote function(e.g., memcpy or
            // alloc), then resumes execution at a local location. Previous cache
            // key only optimizes for local operations, while this new cache key
            // balances the code between a 8192-byte local region, and certain remote
            // code region. Notice the value 12 and 8 here are chosen by empirical
            // evidence.
            (#[verifier::truncate] (((addr & 0xFF) | (addr >> 12 << 8)) as usize))
                % INSTRUCTION_CACHE_SIZE
        };
        let cached_instruction = self.instructions_cache[instruction_cache_key];
        if cached_instruction.0 == pc {
            return Ok(cached_instruction.1);
        }
        let ghost d0 = *self;
        let ghost m0 = *memory;
        let instruction = if self.mop {
            self.decode_mop(memory, pc)
        } else {
            self.decode_raw(memory, pc)
        };
        proof {
            lemma_uncached_same_fetches(d0, d0, m0, *memory);
        }
        match instruction {
            Ok(i) => {
                self.instructions_cache[instruction_cache_key] = (pc, i);
                assert(self.cache() =~= d0.cache().update(instruction_cache_key as int, (pc, i)));
                proof {
                    lemma_uncached_same_fetches(d0, *self, m0, *memory);
                }
                Ok(i)
            },
            Err(e) => Err(e),
        }
    }

    /// Empties every cache slot.
    pub fn reset_instructions_cache(&mut self)
        ensures
            final(self).same_config(*old(self)),
            final(self).cache_is_empty(),
    {
        let empty = (riscv_max_memory() as u64, 0u64);
        self.instructions_cache = [empty; INSTRUCTION_CACHE_SIZE];
    }
}

/// Creates a decoder for the ISA extensions flagged in `isa`: the RVC, I and
/// M factories, then the B factory when `ISA_B` is set; fusion is on when
/// `ISA_MOP` is set.
pub fn build_decoder<F: InstructionFactory>(
    isa: u8,
    version: u32,
    rvc: F,
    i: F,
    m: F,
    b: F,
) -> (r: Decoder<F>)
    ensures
        r.factory_list() == (if isa & 1 != 0 {
            seq![rvc, i, m, b]
        } else {
            seq![rvc, i, m]
        }),
        r.mop_enabled() == (isa & 2 != 0),
        r.decoder_version() == version,
        r.cache_is_empty(),
{
    let mut decoder = Decoder::new(isa & isa_mop() != 0, version);
    decoder.add_instruction_factory(rvc);
    decoder.add_instruction_factory(i);
    decoder.add_instruction_factory(m);
    if isa & isa_b() != 0 {
        decoder.add_instruction_factory(b);
    }
    decoder
}

/// Raw decoding reads memory only through execute loads and the decoder
/// only through its configuration, so decoders configured alike give the
/// same raw decodings on memories that give the same loads.
pub proof fn lemma_raw_decoding_same_fetches<F: InstructionFactory, M: Memory>(
    d1: Decoder<F>,
    d2: Decoder<F>,
    m1: M,
    m2: M,
    pc: u64,
)
    requires
        d1.same_config(d2),
        same_fetches(m1, m2),
    ensures
        d1.raw_decoding(m1, pc) == d2.raw_decoding(m2, pc),
{
    assert(m1.spec_execute_load16(pc) == m2.spec_execute_load16(pc));
    assert(m1.spec_execute_load16((pc + 2) as u64) == m2.spec_execute_load16((pc + 2) as u64));
    assert(m1.spec_execute_load32(pc) == m2.spec_execute_load32(pc));
}

/// Uncached decoding, and so the consistency of the cache, are the same for
/// decoders configured alike on memories that give the same loads.
pub proof fn lemma_uncached_same_fetches<F: InstructionFactory, M: Memory>(
    d1: Decoder<F>,
    d2: Decoder<F>,
    m1: M,
    m2: M,
)
    requires
        d1.same_config(d2),
        same_fetches(m1, m2),
    ensures
        forall|pc: u64| #[trigger]
            d1.uncached_decoding(m1, pc) == d2.uncached_decoding(m2, pc),
        d1.cache() == d2.cache() && d1.cache_consistent(m1) ==> d2.cache_consistent(m2),
{
    assert forall|pc: u64| #[trigger]
        d1.uncached_decoding(m1, pc) == d2.uncached_decoding(m2, pc) by {
        lemma_raw_decoding_same_fetches(d1, d2, m1, m2, pc);
        lemma_mop_decoding_same_fetches(d1, d2, m1, m2, pc);
    }
}

/// Where the 32-bit load at `pc` agrees with the 16-bit loads there, the
/// single-load fast path loads the same instruction bits as loading 16 bits
/// at a time: the choice between the two paths never shows in the result.
pub proof fn lemma_fetched_bits_by_halves<M: Memory>(memory: M, pc: u64)
    requires
        pc % 4096 < 4094 ==> loads_agree_at(memory, pc),
    ensures
        fetched_bits(memory, pc) == fetched_by_halves(memory, pc),
{
    if pc % 4096 < 4094 {
        match memory.spec_execute_load16(pc) {
            Ok(lo) => {
                let hi = memory.spec_execute_load16((pc + 2) as u64)->Ok_0;
                let w = (lo as u32) | ((hi as u32) << 16u32);
                assert(w & 3 == lo & 3 && w & 0xffff == lo as u32) by (bit_vector)
                    requires
                        w == (lo as u32) | ((hi as u32) << 16u32),
                ;
            },
            Err(_) => {},
        }
    }
}

/// Registering another factory never changes a decoding that succeeds, and
/// where no factory recognised the bits, the new factory decides.
pub proof fn lemma_first_decoded_push<F: InstructionFactory>(
    factories: Seq<F>,
    factory: F,
    bits: u32,
    version: u32,
)
    ensures
        first_decoded(factories.push(factory), bits, version) == match first_decoded(
            factories,
            bits,
            version,
        ) {
            Some(i) => Some(i),
            None => factory.spec_decode(bits, version),
        },
    decreases factories.len(),
{
    if factories.len() > 0 {
        assert(factories.push(factory).drop_first() =~= factories.drop_first().push(factory));
        lemma_first_decoded_push(factories.drop_first(), factory, bits, version);
    } else {
        assert(factories.push(factory).drop_first() =~= Seq::<F>::empty());
        reveal_with_fuel(first_decoded, 2);
    }
}

/// A decoder that has one more factory registered than another, and is
/// otherwise configured alike, decodes successfully wherever the other does,
/// to the same instruction.
pub proof fn lemma_more_factories_keep_decodings<F: InstructionFactory, M: Memory>(
    fewer: Decoder<F>,
    more: Decoder<F>,
    factory: F,
    memory: M,
    pc: u64,
)
    requires
        more.factory_list() == fewer.factory_list().push(factory),
        more.mop_enabled() == fewer.mop_enabled(),
        more.decoder_version() == fewer.decoder_version(),
        fewer.raw_decoding(memory, pc) is Ok,
    ensures
        more.raw_decoding(memory, pc) == fewer.raw_decoding(memory, pc),
{
    let bits = fetched_bits(memory, pc)->Ok_0;
    lemma_first_decoded_push(fewer.factory_list(), factory, bits, fewer.decoder_version());
}

/// A successful `decode` leaves the slot of `pc` holding `pc` and the
/// decoded instruction, so decoding `pc` again gives the same instruction.
pub proof fn lemma_decode_remembers<F: InstructionFactory, M: Memory>(
    decoder: Decoder<F>,
    memory: M,
    pc: u64,
)
    requires
        decoder.cached_decoding(memory, pc) is Ok,
    ensures
        decoder.cache_after(memory, pc)[cache_slot(pc)] == (
            pc,
            decoder.cached_decoding(memory, pc)->Ok_0,
        ),
{
}

/// From a consistent cache, one `decode` gives the uncached decoding and
/// leaves a consistent cache.
proof fn lemma_decode_step_consistent<F: InstructionFactory, M: Memory>(
    decoder: Decoder<F>,
    cache: Seq<(u64, u64)>,
    memory: M,
    pc: u64,
)
    requires
        decoder.consistent_with(cache, memory),
        cache.len() == INSTRUCTION_CACHE_SIZE,
    ensures
        decoder.decoding_with(cache, memory, pc) == decoder.uncached_decoding(memory, pc),
        decoder.consistent_with(decoder.cache_after_with(cache, memory, pc), memory),
        decoder.cache_after_with(cache, memory, pc).len() == INSTRUCTION_CACHE_SIZE,
{
    lemma_cache_slot_bits(pc);
    let slot = cache_slot(pc);
    if (pc as usize) < (memory_limit() as usize) && cache[slot].0 == pc {
        assert(cache[slot] != empty_slot());
    }
}

/// The cache never changes a result: from a cache whose filled slots hold
/// what decoding gives on the memory (such as an empty one, after `new` or
/// `reset_instructions_cache`), decoding any series of PCs on unchanged
/// memory gives at each PC what decoding without the cache gives there.
pub proof fn lemma_cache_never_changes_results<F: InstructionFactory, M: Memory>(
    decoder: Decoder<F>,
    cache: Seq<(u64, u64)>,
    memory: M,
    pcs: Seq<u64>,
)
    requires
        decoder.consistent_with(cache, memory),
        cache.len() == INSTRUCTION_CACHE_SIZE,
    ensures
        decoder.decoding_run(cache, memory, pcs).len() == pcs.len(),
        forall|k: int|
            0 <= k < pcs.len() ==> #[trigger] decoder.decoding_run(cache, memory, pcs)[k]
                == decoder.uncached_decoding(memory, pcs[k]),
    decreases pcs.len(),
{
    if pcs.len() > 0 {
        lemma_decode_step_consistent(decoder, cache, memory, pcs[0]);
        let next = decoder.cache_after_with(cache, memory, pcs[0]);
        lemma_cache_never_changes_results(decoder, next, memory, pcs.drop_first());
        let run = decoder.decoding_run(cache, memory, pcs);
        let rest = decoder.decoding_run(next, memory, pcs.drop_first());
        assert forall|k: int| 0 <= k < pcs.len() implies #[trigger] run[k]
            == decoder.uncached_decoding(memory, pcs[k]) by {
            if k > 0 {
                assert(run[k] == rest[k - 1]);
                assert(pcs.drop_first()[k - 1] == pcs[k]);
            }
        }
    }
}

/// With fusion off, decoding without the cache is raw decoding: nothing is
/// fused.
pub proof fn lemma_no_fusion_when_off<F: InstructionFactory, M: Memory>(
    decoder: Decoder<F>,
    memory: M,
    pc: u64,
)
    requires
        !decoder.mop_enabled(),
    ensures
        decoder.uncached_decoding(memory, pc) == decoder.raw_decoding(memory, pc),
{
}

/// A 16-bit instruction (low two bits of its halfword not `0b11`) is loaded
/// as that halfword alone, zero-extended, on either path: the following
/// halfword never joins it.
pub proof fn lemma_fetched_sixteen_bits<M: Memory>(memory: M, pc: u64, lo: u16)
    requires
        pc % 4096 < 4094 ==> loads_agree_at(memory, pc),
        memory.spec_execute_load16(pc) == Ok::<u16, Error>(lo),
        lo & 3 != 3,
    ensures
        fetched_bits(memory, pc) == Ok::<u32, Error>(lo as u32),
{
    lemma_fetched_bits_by_halves(memory, pc);
}

/// A 32-bit instruction (low two bits of its first halfword `0b11`) is
/// loaded as its two halfwords, the first one low, on either path.
pub proof fn lemma_fetched_thirty_two_bits<M: Memory>(memory: M, pc: u64, lo: u16, hi: u16)
    requires
        pc % 4096 < 4094 ==> loads_agree_at(memory, pc),
        memory.spec_execute_load16(pc) == Ok::<u16, Error>(lo),
        memory.spec_execute_load16((pc + 2) as u64) == Ok::<u16, Error>(hi),
        lo & 3 == 3,
    ensures
        fetched_bits(memory, pc) == Ok::<u32, Error>((lo as u32) | ((hi as u32) << 16u32)),
        ((lo as u32) | ((hi as u32) << 16u32)) & 0xffffu32 == lo as u32,
{
    lemma_fetched_bits_by_halves(memory, pc);
    assert(((lo as u32) | ((hi as u32) << 16u32)) & 0xffffu32 == lo as u32) by (bit_vector);
}

/// Loaded instruction bits whose low two bits are not `0b11` fit in 16 bits:
/// a 16-bit instruction never carries the bits that follow it.
pub proof fn lemma_fetched_width<M: Memory>(memory: M, pc: u64)
    ensures
        fetched_bits(memory, pc) matches Ok(b) ==> (b & 3 != 3 ==> b <= 0xffff),
{
    match fetched_bits(memory, pc) {
        Ok(b) => {
            if pc % 4096 < 4094 {
                let w = memory.spec_execute_load32(pc)->Ok_0;
                assert(w & 3 != 3 ==> (w & 0xffff) & 3 != 3 && w & 0xffff <= 0xffff) by (bit_vector);
            } else {
                let lo = memory.spec_execute_load16(pc)->Ok_0;
                if lo & 3 == 3 {
                    let hi = memory.spec_execute_load16((pc + 2) as u64)->Ok_0;
                    assert(lo & 3 == 3 ==> ((lo as u32) | ((hi as u32) << 16u32)) & 3 == 3)
                        by (bit_vector);
                } else {
                    assert((lo as u32) <= 0xffff) by (bit_vector);
                }
            }
        },
        Err(_) => {},
    }
}

/// The factories are tried in order: no factory decides exactly when none
/// recognises the bits, and when factory `k` recognises them and none before
/// it does, factory `k` decides.
pub proof fn lemma_first_decoded_order<F: InstructionFactory>(
    factories: Seq<F>,
    bits: u32,
    version: u32,
    k: int,
)
    requires
        0 <= k <= factories.len(),
        forall|j: int| 0 <= j < k ==> (#[trigger] factories[j]).spec_decode(bits, version) is None,
    ensures
        k == factories.len() ==> first_decoded(factories, bits, version) is None,
        k < factories.len() && factories[k].spec_decode(bits, version) is Some ==> first_decoded(
            factories,
            bits,
            version,
        ) == factories[k].spec_decode(bits, version),
    decreases k,
{
    if k > 0 {
        assert forall|j: int| 0 <= j < k - 1 implies (#[trigger] factories.drop_first()[j]).spec_decode(
            bits,
            version,
        ) is None by {
            assert(factories.drop_first()[j] == factories[j + 1]);
        }
        assert(factories[0].spec_decode(bits, version) is None);
        lemma_first_decoded_order(factories.drop_first(), bits, version, k - 1);
        if k < factories.len() {
            assert(factories.drop_first()[k - 1] == factories[k]);
        }
    }
}

/// An empty cache is consistent with every memory.
pub proof fn lemma_empty_cache_consistent<F: InstructionFactory, M: Memory>(
    decoder: Decoder<F>,
    memory: M,
)
    requires
        decoder.cache_is_empty(),
    ensures
        decoder.cache_consistent(memory),
{
}

/// The cache slot of `pc` is made of bits 1 to 8 of `pc` (low byte) and
/// bits 13 to 16 (next four bits).
pub proof fn lemma_cache_slot_bits(pc: u64)
    ensures
        cache_slot(pc) == ((pc >> 1u64) & 0xffu64) + (((pc >> 13u64) & 0xfu64) << 8u64),
        0 <= cache_slot(pc) < INSTRUCTION_CACHE_SIZE,
{
    let a = pc >> 1u64;
    let x = ((a & 0xffu64) | ((a >> 12u64) << 8u64)) as usize;
    assert(x % 4096usize == ((pc >> 1u64) & 0xffu64) + (((pc >> 13u64) & 0xfu64) << 8u64))
        by (bit_vector)
        requires
            a == pc >> 1u64,
            x == ((a & 0xffu64) | ((a >> 12u64) << 8u64)) as usize,
    ;
}

/// `pc & 0xfff` is the offset of `pc` in its page.
proof fn lemma_page_offset(pc: u64)
    ensures
        pc & 0xfffu64 == pc % 4096,
{
    assert(pc & 0xfffu64 == pc % 4096) by (bit_vector);
}

/// An address inside memory leaves room to add a little to it.
proof fn lemma_in_memory_no_overflow(pc: u64)
    requires
        (pc as usize) < (memory_limit() as usize),
    ensures
        pc < 0xffff_ffff_ffff_ff00u64,
{
    assert((pc as usize) < 0x40_0000usize ==> pc < 0xffff_ffff_ffff_ff00u64) by (bit_vector);
}

} // verus!
