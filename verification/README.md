# arm_to_wasm

A verified library for translating AArch64 (and, in part, RISC-V) machine code into
WebAssembly, written in Verus.

- `src/arm_decoder`: a table-driven AArch64 decoder; each group decoder is specified
  bit for bit over the instruction word.
- `src/reboot`: the smaller decoder of the translator, with its register bookkeeping,
  and `decode_file`, which decodes the executable sections of an ELF file and counts
  the `capstone` mnemonics of the words it does not know.
- `src/firestorm_decoder`: the operand structures of a third decoder.
- `src/arm`: the Arm architecture (register identifiers, control flow and stack effects
  of instructions) and the lowering of instructions to WebAssembly expressions.
- `src/riscv`: instruction splitting, decoding through `raki`, compressed instruction
  expansion, branch analysis and lowering for RISC-V.
- `src/aw_core`: routine discovery, block layout and stack variable analysis of a
  program, read from an ELF file through the `elf` crate; the memory layout of a
  program; `translate_elf`, which analyses an ELF file, lays out its memory and lowers
  every routine; shared object version analysis.
- `src/module`: WebAssembly operations, memory accesses and the expression tree the
  lowering produces.
- `app/`: the command line front end (file I/O, the known/unknown mnemonic tally of the
  Arm decoder, printing).
- `tests/`: tests on concrete instructions, routines and hand-built ELF files.
