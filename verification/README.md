# px4-param-audit

Audits the parameters of a PX4 flight controller against a baseline, and writes
values back on request. The library in `src/` is verified with
[Verus](https://github.com/verus-lang/verus); the program in `app/` connects it
to the command line, the file system, the MAVLink device and the terminal.

## What is verified

- Values: the 32-bit numbers that MAVLink carries are held by their bits. Reading
  decimal literals, rounding, formatting and comparing them is exact integer
  arithmetic, stated in units of the smallest number of the format (`ieee`,
  `literal`, `binary`). Integers travel cast or bytewise (`param`), and the
  encoding of a device is inferred from ranges and baselines (`encoding`).
- Baselines: defaults and metadata are read from C sources (`csource`), YAML
  documents (`yaml`), airframe scripts (`airframe`) and VOXL parameter files
  (`voxl_stack`). Layers of defaults add up to recommendations (`baseline`).
- The audit: one row for each parameter of the device (`audit`), the writes that
  the command line asks for (`plan`), how they are carried out (`apply`), and
  which answer of the device confirms a write (`confirm`, `echo`).
- The device: frames are cut out of a stream of bytes (`frame`), and parameters
  that do not arrive are asked for again (`request`, `collect`, `collector`).
- The terminal: what keys and confirmed writes do to the state of the interface
  (`tui`, `session`), and what is drawn (`screen`, `draw`).

Functions named `law_...` state what holds across functions: that a value which
is sent back confirms its write, that a fallback baseline is never written, that
browsing writes nothing, that it does not matter in which pieces the bytes of a
stream arrive, and others.

## What is trusted

The library calls `serde_yaml` to read YAML documents, `mavlink` to read message
payloads, and `str::to_lowercase` to search whatever the case. Each call stands
in a small function whose documentation says what is believed of it.

## Layout

- `src/`: the verified library.
- `tests/`: tests of the library, some of them against the standard library's own
  floating-point numbers and texts.
- `app/`: the program.
