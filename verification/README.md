# mesa_kernel

The logic of a small x86-64 hobby kernel, written in Verus: each function states in
its contract what it computes, and Verus proves it.

- `src/` is the verified library: the on-disk formats (MesaFS, GPT, MBR, ELF, WAV/MP3
  headers, USB descriptors, ACPI tables), the device drivers' decisions (which register
  gets which value, how the xHCI, NVMe, virtio and RTL8139 rings advance, how HD Audio
  streams are set up), USB enumeration (the input contexts of Address Device and
  Configure Endpoint, control and command TRBs, when a command or transfer is retried,
  the SCSI bring-up of a mass-storage device, the USB status report), input decoding
  (PS/2 keyboard and mouse, the Elan touchpad), the console and the drawing primitives,
  the RTC calendar, the battery report and the shell commands' texts. Laws that span
  several functions are public proof functions named `law_*`.
- `app/` is the unverified part: port and memory-mapped I/O, interrupt handlers, the
  global driver state, and the loops that carry out what the library decides (among
  them the xHCI bring-up and the enumeration of each root-hub port's device).
- `tests/` runs the library on concrete values.

Block devices are modelled sector by sector (`block::BlockDevice`); a read or write
that fails leaves its outcome to the device, so contracts over a device speak of what
the reads that succeeded returned.
