# rustcooling

LCD controller for ID-COOLING FX liquid coolers, with its core proved in Verus.

- `src/` — the verified library: the 64-byte HID report (`protocol`), the
  animated display value (`animation`), the monitor loop's decisions
  (`monitor`), the HID connection state (`hid`), the command line (`cli`),
  the parsing of `/proc/stat` and `/proc/cpuinfo` and the CPU-load counters
  (`hardware`), the autostart unit text (`autostart`) and the text
  primitives they share (`text`).
- `app/` — the program around it: argument parsing with clap, terminal
  output, the HID device through hidapi, file and process I/O, and the
  floating-point sensor arithmetic.
- `tests/` — tests of the library.

Platform note: on Windows the program shows no sensor readings. The original
read them through WMI and `GetSystemTimes` with the `windows` crate, which is
not available to this build; `app/` therefore falls back to the dummy
provider on every platform but Linux. The Windows CPU-load counter logic
(`hardware::windows`) is verified and tested in the library, but no part of
`app/` calls it yet.
