# dvida_kernel

The logic of a small x86-64 kernel, verified with Verus: the on-disk formats and
block-level algorithms of its ext2 driver, GPT partition tables, the decisions of its
parallel ATA and AHCI SATA drivers, the real-time clock and calendar arithmetic, absolute
Unix paths, the VFS bookkeeping, DMA buffer pools and the task executor's queues.

- `src/` is the verified library.  Disk and port I/O never happen there: each driver
  step either computes on bytes and values it is handed, or names the access it needs
  next and takes the result back (bringing up a SATA port, a whole ext2 read or write).
- `app/` is the kernel around it: port I/O, the serial line, the heap, reading the clock,
  identifying and reading the parallel ATA drives and their partition table, the
  executor's run loop and the VFS task.  It does not yet drive the AHCI controller's
  memory-mapped registers or mount an ext2 file system, so the steps for those stand in
  the library with nothing in `app/` that runs them.
- `tests/` exercises the library on concrete values.
