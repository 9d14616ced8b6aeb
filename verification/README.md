# syscall_tracer

Detection logic of an eBPF syscall tracer, verified with Verus.

- `src/event.rs` — the record the kernel probes emit (`TraceEvent`), its
  ring-buffer byte layout, how the probes fill it and which syscalls they
  keep, and how userspace reads it back (the round trip is proved).
- `src/detection/` — the five detection rules (dropper, self-replace,
  cross-process ptrace, reverse shell, persistence writes), each specified as
  a step function over an abstract state, with laws about them, plus the
  parsers for the `/proc` answers the ptrace and reverse-shell rules use.
- `src/pipeline.rs` — one record in, the event line and every rule's alert
  lines out, in a fixed order.
- `src/display.rs` — the dashboard's bounded histories and counters.
- `src/table.rs`, `src/text.rs` — per-pid tables and character helpers
  (prefixes, basenames, decimal rendering, padding, UTF-8 decoding).
- `app/` — the program: loads the eBPF object, drains the ring buffer,
  reads `/proc`, writes the JSON-lines log and draws the terminal UI.
  The in-kernel probes themselves are not part of this crate: the object
  is built separately for a `bpfel`/`bpfeb` target and its path is given
  on the command line (default `syscall-tracer-ebpf.o`). What the probes
  put in a record is modelled by `TraceEvent::for_path` and
  `TraceEvent::for_ptrace`, and the record's layout, in either byte
  order, by `src/event.rs`.
