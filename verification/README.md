# m68k

A Motorola 68000 CPU core and disassembler, written in Verus and verified.

All CPU state lives in `M68k`; every memory access goes through the `Bus`
trait, which the host implements. The core does no I/O and reads no clock.

## Layout

- `src/cpu.rs`: the CPU state, the status register and stack-pointer model,
  the prefetch queue, reset, interrupts and `step_with`.
- `src/ea.rs`, `src/ea/modes.rs`: effective-address resolution and access.
- `src/flags.rs`: the condition codes of additions, subtractions and logical
  results, stated arithmetically.
- `src/exception.rs`: exception entry, address errors, interrupts, traces.
- `src/decode.rs`, `src/ops/mod.rs`: the 65536-entry dispatch table and the
  instruction families' claims on it. Each handler's contract is a named
  predicate (`*_post`); `decode::executes` picks the one a handler names, and
  `M68k::step_with` states an instruction step through it.
- `src/ops/*.rs`: the instruction families. `ops::alu` runs the shared bus
  schedule of the arithmetic, logic, bit, shift, BCD and multiply/divide
  handlers; its contract states the exact registers, flags, PC and cycle count
  for every instruction whose operands are registers or immediates, and, as a
  function of the values read and of the extension words the queue takes in,
  for those with a memory operand and for the memory-pair forms (`CMPM`,
  `ADDX`/`SUBX`). `ops::move_` states MOVE the same way.
- `src/disasm.rs`, `src/disasm/text.rs`: the disassembler, whose output is
  stated as a function of the opcode, its extension words and its address.
- `app/`: host conveniences that are not verified: a serde-enabled copy of
  the CPU state, and stepping with a lazily built shared decoder.
- `tests/`: the test suite.

Memory contents are the host's: contracts about values read from the bus
say what holds for every value the bus may return.

For proofs, a `Bus` carries a record of the accesses it has served (`log`),
and each of its methods adds its access, with the value read or written.
Every method requires a 24-bit address, so Verus checks that the core masks
every address it puts on the bus. The record is stated for: operand reads
and writes (`ea::read`, `ea::write`, the long writes), queue advances and
refills, reset, exception entries (frame writes, vector reads and refill,
for the short frame and the address-error frame), `TRAP`, `RTE`'s pops,
divide-by-zero, a halted or stopped step and a refused interrupt (no access),
and the halting paths of `LINK` and `UNLK`. The other instruction handlers'
contracts state registers, flags, PC and cycles only: which addresses their
operand accesses touch, what they write and in what order is not stated
there.
