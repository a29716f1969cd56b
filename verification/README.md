# axdriver

Driver logic for an ArceOS-style device driver stack, verified with Verus.

- `src/` is the verified library: the RAM disk block device (`ramdisk`), the
  status logic of the AHCI driver (`ahci`), PCI configuration-space
  addressing and BAR range allocation (`pci`), VirtIO device classification,
  interrupt routing and error mapping (`virtio`), and the shared device types
  and errors (`dev`).
- `app/` holds what touches hardware: memory-mapped register access, the
  `simple-ahci` and `virtio-drivers` transports, and the `axdriver_base`
  driver traits.
- `tests/` exercises the library on concrete values.
