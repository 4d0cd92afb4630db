# elohim

The verified core of a small x86_64 kernel and of the UEFI boot loader that
starts it.

- `src/serial.rs`: the 16550 UART console: register ports, the
  initialisation writes, the line encoding of bytes (backspace and delete
  become back-blank-back) and the polled transmit protocol as a state machine.
- `src/gdt.rs`: the boot CPU's global descriptor table and task state
  segment, built on the `x86_64` crate's types.
- `src/boot.rs`: boot loader settings, graphics mode choice, ACPI table
  lookup, kernel file buffer sizes, the physical memory map and page frames.
- `src/framebuffer.rs`: the striped test pattern painted at boot.
- `src/logger.rs`: the log line format.
- `app/`: the boot loader and kernel entry points, which perform the port,
  register and firmware accesses that the library decides.
