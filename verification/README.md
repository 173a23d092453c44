# sem86_core

The core of an emulated x86 PC, verified with Verus.

- `src/emulator`: the processor. Interrupt entry and return, segments, the stack, control registers,
  handlers, the loops that run it, traces, hooks and snapshots.
- `src/decoder.rs`: instruction encodings without repetition, and the decoder's caches.
- `src/codegen`: roots and blocks of compiled pages, code for single encodings, and a one-pass
  assembler for x86-64 and AArch64.
- `src/hw`: interrupt controllers, disks, the floppy controller, PCI, the real-time clock, DMA, the
  network card and the guest's network.
- `app`: what talks to the host: port accesses, sockets, threads, files, clocks and floating-point
  statistics.
- `tests`: tests of the library.

Memory is a flat array of bytes. Address translation, the video and sound adapters and the execution
of translated instructions belong to whoever uses the library: the loops in `src/emulator/run.rs` ask
for this work and take its results.
