# rkernel

The decision logic of a small x86 kernel, written in Verus and verified: the graphics and
text consoles, the keyboard and mouse handling, the interrupt controllers, the physical
frame allocator and the register sequences of the ATA, PCI, Sound Blaster, serial, speaker,
clock and FPU drivers.

- `src/` is the verified library. It touches no hardware: each driver computes the port
  writes, memory stores or drawing operations to carry out, and takes the bytes that the
  hardware answered as plain arguments.
- `app/` is the kernel image around it: the boot entry, interrupt entry stubs, port and
  memory-mapped I/O, and the device crates (`vga`, `ps2-mouse`, `multiboot2`, `x86_64`).
- `tests/` runs the library on concrete inputs.
