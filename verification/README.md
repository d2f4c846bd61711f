# palladium

The decision-making parts of the PalladiumOS kernel, verified with Verus.

- `src/shell.rs`, `src/script.rs`, `src/text.rs`: what a shell command line means (trimming,
  the command word and its arguments, missing-argument usage errors, `cd ..`), and which
  lines of a script run and where a failing script stops.
- `src/frames.rs`: the boot-info frame allocator over the bootloader's memory map.
- `src/paging.rs`, `src/addr.rs`: the page-table walk behind address translation and
  `ensure_user_accessible`, over x86_64's address helpers.
- `src/syscall.rs`, `src/usermode.rs`: system-call decoding and the ring-3 entry frame and
  program layout.
- `src/testing.rs`: the test harness's runner and QEMU exit codes.

`app/` holds the hardware side (CR3, page-table memory, ports, `iretq`, the syscall entry)
and the shell's output; the console, file system, editor, GDT and heap that the rest of the
kernel provides reach it through `app/platform.rs`.
