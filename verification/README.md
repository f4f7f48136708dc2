# kernel

The verified core of a small x86-64 teaching kernel booted by Limine.

- `src/` is the library, verified with Verus: the BootInfo handoff record and
  the shim that builds it from the bootloader's responses (`bootinfo`,
  `shim`), the kernel's entry decision (`kernel_main`), framebuffer pixel
  addressing (`fb`), the 16550 UART bring-up, transmit decision and newline
  translation (`serial`), the boot handshake with its bounded poll
  (`handshake`), and the KTAP test cockpit (`ktap`, `exit`).
- `app/` performs what the library decides: port I/O through inline
  assembly, the Limine request statics, the C-ABI BootInfo layout, the
  link-section test registry and the two boot paths.
- `tests/` runs the library on concrete values.
