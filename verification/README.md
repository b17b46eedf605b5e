# manage

The management tool of the Sodalite operating system, as a verified
library (`src/`) and a thin program around it (`app/`).

- `src/args.rs`, `src/opt.rs`: the command line parser (tasks and their
  bracketed flags), architectures, abort levels and what an error does.
- `src/image.rs`: CHS/LBA addressing, MBR partition entries, the MBR merged
  into a boot sector, and the writes that lay out a bootable disk image.
- `src/units.rs`: data sizes such as `19kB`.
- `src/logger.rs`: indented, optionally coloured log lines.
- `src/plan.rs`: the external commands of a build, the files of an image
  task and the QEMU command line.
- `app/`: `main`, running commands, reading and writing files, printing.

The kernel part of the original (boot, interrupts, VGA set-up) runs on bare
hardware through the project's own `x86_64`, `vga` and `algorithms` crates
and is not part of this crate.
