# aios_kernel

The logic of a small aarch64 microkernel and its compositor, written in Verus
and verified: every function in `src/` carries a contract that Verus proves.

- `src/ipc/`: channels and their message rings, synchronous call and reply
  (with the reply's bytes), notifications, select, timeouts, shared memory,
  and the direct-switch scheduling decisions; `ops.rs` holds the operations
  as the kernel runs them, with their capability checks and error results.
- `src/cap.rs`: capability tokens, grants, revocation and checks.
- `src/compositor/`: surfaces, z-order, focus, hotkeys, input routing,
  composition and the desktop shell (status strip, taskbar, workspace).
- `src/dtb.rs`, `src/fdt_walk.rs`: the device tree facts the kernel reads
  through `fdt_parser`, and the condition under which that crate walks a
  blob without a panic.
- `src/drivers/`, `src/arch/`, `src/gpu/`, `src/framebuffer.rs`: the
  arithmetic and decisions of the VirtIO drivers, the boot path and the
  framebuffer.
- `src/laws.rs`: properties that span several operations, proved.

Calls into `fdt_parser`, `spleen_font` and a few std functions go through
small trusted wrappers whose contracts say what those crates do; their doc
comments name what is assumed.

`app/` is a host program that walks through the boot path on a blob and a
framebuffer in memory; `tests/` runs the library on concrete values.
