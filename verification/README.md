# riscv_vm

The device, memory and control logic of a small RISC-V virtual machine,
written in Verus. Each public function carries a contract over a mathematical
model of its type (byte sequences for memory, register maps for devices,
queues for FIFOs), and the laws that span several calls are stated as public
proof functions beside the code they speak of.

Layout:

- `src/dram.rs`: guest RAM as a byte sequence with little-endian loads and
  stores, snapshots and restore.
- `src/bus.rs`, `src/bus/system.rs`: the `Bus` trait, stated over an
  abstract bus state, with the sized access helpers and the atomic memory
  operations defined on top of it; and `SystemBus`, which routes each access
  to DRAM or to the device whose window it falls in.
- `src/cpu/`: CSR file, per-hart state, trap and privilege rules, the
  bit-level parts of the floating-point unit, the FP loads and stores, the
  exact part of OP-FP (encoding checks, sign injection, FCLASS, moves), and
  the block engine (`engine.rs`): the micro-operations a block is made of and
  `Cpu::execute_block`, stated as a fold of one step function over the block.
- `src/mmu.rs`: Sv39/Sv48 address translation, a page-table walk through the
  bus stated over the bus's read outcomes; the block engine and the FP loads
  and stores translate every data address through it.
- `src/clint.rs`, `src/devices/`: CLINT, PLIC, UART, the virtio devices
  (block, input, GPU, and the 9P transport with its message codec),
  `AnyVirtio` for a bus that holds devices of several kinds, and the D1 board
  peripherals.
- `src/dtb.rs`, `src/dtb/generate.rs`: the flattened device tree builder, and
  the generator that lays out a machine's tree from a memory map given as
  plain values.
- `src/crypto.rs`: the sealed key vault, calling `argon2`, `aes-gcm` and `rand`
  through wrappers whose contracts are stated in their doc comments.
- `src/bench/`: a tiny RV64 assembler and the benchmark workload images.
- `app/`: what cannot be verified: floating-point arithmetic and the OP-FP and
  fused multiply-add instructions built on it, host I/O for the console and
  the 9P file server (which takes up the queue work the library's `P9Device`
  leaves after a register write), and the copies of library types that carry
  `serde`, `thiserror` and `zeroize` derives.
- `tests/`: the test suite, run against the compiled library.
