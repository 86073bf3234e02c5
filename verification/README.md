# one-kvm-ir

Infrared remote learning and transmission for a KVM board: capture of
decoded rc-core scancodes, transmission through a kernel LIRC device or a
bit-banged GPIO line, a WS2812 status LED, and a small SQLite library of
remotes and buttons that can be imported and exported as JSON packs.

## Layout

- `src/` is the verified library (Verus). Every decision of the service is
  a function with a contract over a mathematical model: NEC encoding,
  protocol names, the `struct lirc_scancode` layout, receiver and
  transmitter choice, the learn-capture state machine, the LED frame
  timing and programs, settings normalization, code-library rules, and
  the pack import/export machine. Proof functions (`lemma_*`) state the
  laws that relate several functions: encode/decode round trip, protocol
  name round trip, idempotent normalization, import counting and
  re-import, single KVM remote, unique quick slots, frame timing.
- `tests/` runs the library on concrete values.
- `app/` is the runtime around it: device I/O (ioctl, mmap, GPIO), the
  SQLite queries, the async manager and the HTTP handlers. It drives the
  library's state machines and performs the actions they ask for. Code
  that times the carrier and the LED in floating point stays there.
