# Oxid, verified

The logic of the Oxid x86_64 kernel and of its build tool, written in Verus and
proved against its contracts.

- `src/` is the verified library:
  - `arch`: segment descriptors, interrupt gates and the exception report, and a
    16550 serial port that queues the port I/O it performs;
  - `boot`, `memory`: the Limine answers turned into the kernel's own types, and
    the memory map;
  - `drivers`: the 8x8 font, the framebuffer console (it queues the pixels it
    draws), the serial console and the console that drives both;
  - `kernel`: the boot report and the kernel's start-up;
  - `text`, `string`, `vga_buffer`, `progress_bar`: fixed-capacity text,
    number formatting, the VGA text writer and the progress line;
  - `xtask`: the build tool's commands, the smoke check, the Limine archive
    listing, and the FAT16 disk image (layout, FATs, directories, long names),
    with the proof that a built image gives back every file it holds.
- `app/` is the hardware and host side: it carries out the queued port I/O and
  pixel writes, loads the descriptor tables, reads the Limine responses, and runs
  the build tool's commands, files and QEMU.
- `tests/` runs the library on concrete values.
