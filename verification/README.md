# Methylenix kernel library, verified

The AML parser and interpreter pieces, ACPI table readers, collections and
driver logic of the Methylenix kernel, written in Verus: every function in
`src/` carries a contract that Verus proves.

- `src/aml/`: the AML byte stream and its parsers (names, data objects,
  expressions, statements, named objects, term lists), the interpreter's
  values, variable tree and notify list, the arithmetic and conversions of
  its operators, and the planning of field reads and writes down to I/O
  ports, memory, PCI configuration space and the embedded controller.
- `src/acpi/`: the XSDT, FADT, DSDT/SSDT, MADT, MCFG, BGRT, GTDT and SPCR
  readers, fixed and general-purpose events, the PM timer, the embedded
  controller protocol, device resources and sleep states.
- `src/collections/`: FIFO, ring buffer, linked lists (with cursors), GUID.
- `src/drivers/`: NVMe queues and commands, the I210 rings, the LPC bridge,
  the VGA text console, boot information, the serial-port table.
- `src/application_loader.rs`: where program segments go and the layout of
  a new program's initial stack.
- `src/block_device.rs`: the block device registry.
- `app/`: the hardware side: performing the port, memory, PCI and embedded
  controller accesses that the library plans.
- `tests/`: tests on concrete values.

Quirks of the kernel are kept and stated in the contracts (for example, the
`ToInteger` of a buffer shifts byte `i` by `i` bits).
