# rvcore

A RISC-V RV64I emulator (with `div`/`rem` and a memory-mapped UART) whose core
is verified with Verus.

- `src/le.rs`: little-endian byte strings, the model of multi-byte memory access.
- `src/dram.rs`: main memory (1 MiB at `0x8000_0000`), reads and writes of 8–64 bits.
- `src/uart.rs`: the serial output at `0x1000_0000`; bytes written are kept until taken.
- `src/bus.rs`: routes each access to the UART or to memory.
- `src/isa.rs`: the instruction encoding and the arithmetic of the operations, as
  mathematical definitions.
- `src/ops.rs`: the executable bit manipulations, proved equal to those definitions.
- `src/cpu.rs`: the processor: `decode_execute` is proved to follow `execute`, and
  `step`, one turn of the emulator's loop, to follow `step_result`.
- `src/laws.rs`: properties across instructions (x0 is ground, `sltiu rd, rs, 1`
  tests for zero, `lui` + `addi` build constants, W results are sign-extended, ...).
- `app/main.rs`: the command-line program: reads a binary, runs the loop, prints.
