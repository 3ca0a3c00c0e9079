# h8_3069f_emulator

An emulator of the Renesas H8/3069F microcontroller, written in Verus.
It loads an ELF program into the emulated address space and runs it
instruction by instruction, with the system calls of the board's monitor
(installing interrupt handlers, writing to the console).

## Instructions

Implemented: MOV (B, W, L, with PUSH and POP as its stack forms), ADD (B,
L), ADDX, ADDS, SUB (B, W, L), SUBS, CMP (B, W, L), INC and DEC (B, W, L),
MULXU and DIVXU (B, W), NEG, NOT (B, W, L), EXTU (W, L), AND, OR, XOR (B,
W, L), SHAL, ROTL, ROTR, ROTXL (B, W, L), BSET, BTST, BAND, BIOR, BIST,
Bcc, BSR, JMP, JSR, RTS, RTE, TRAPA and STC.

Not implemented: ADD.W, SUBX, DAA, DAS, MULXS, DIVXS, EXTS, SHAR, SHLL,
SHLR, ROTXR, BCLR, BNOT, BOR, BXOR, BIXOR, BIAND, BLD, BILD, BST, SLEEP,
LDC, ANDC, ORC, XORC, NOP, EEPMOV and MOVFPE/MOVTPE. Such an opcode stops
the run with `Unimplemented`, giving the opcode and its address. Writes to
the I/O port registers are stored and have no other effect.

## Layout

- `src/` is the verified library.
  - `bus.rs`, `memory.rs`, `registers.rs`: the address space, by area,
    viewed as a map from address to byte.
  - `cpu.rs`: the CPU state, its view (`CpuView`), the condition codes and
    the cycle counts of the bus controller.
  - `cpu/addressing_mode/`: the addressing modes, each specified over the view.
  - `cpu/instruction/`: one file per instruction; each public method states
    exactly the state after the instruction and the states it reports.
  - `cpu/exec.rs`: the decoder; `exec` is specified instruction by instruction.
  - `cpu/ready.rs`, `cpu/run.rs`: the checks that make a step safe to take,
    and the decisions of the run loop (one step of it at a time).
  - `cpu/interrupt_controller.rs`: the queue of interrupt requests.
  - `cpu/messages.rs`: the text messages exchanged with an observer.
  - `elf.rs`: the ELF32 parser and the program loader.
  - `laws.rs`: properties that span operations (a read gives back a write,
    a return undoes a call, a pop undoes a push, and so on).
- `tests/`: tests of the library.
- `app/`: the command-line program: reads the file, drives the run loop
  with real time and standard input.

## Trusted parts

None of the library's own: every function in `src/` is verified. The
proofs rest on Verus, on `vstd` and on its specifications of the standard
library (vectors, strings, `VecDeque`, UTF-8).
