# ckb_vm_decoder

The instruction decoder of a RISC-V virtual machine, verified with Verus.

- `src/decoder.rs`: `Decoder` loads instruction bits at a PC (one 32-bit load
  inside a page, 16-bit loads at a page's end), hands them to the registered
  instruction factories in order, and caches decoded instructions by PC.
  `build_decoder` registers the factories an ISA needs.
- `src/decoder/mop_rules.rs`: macro-operation fusion rules and `MopDecoder`,
  which fuses a series of adjacent instructions into one.
- `src/instructions.rs`: the internal 64-bit instruction form and the
  `InstructionFactory` trait.
- `src/memory.rs`: the `Memory` trait instructions are fetched from.
- `src/definitions.rs`: the constants taken from `ckb-vm-definitions`.

Memories and factories are supplied by the user: their spec functions say
what they give, and every decoding result is stated over them.
