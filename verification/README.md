# PressNots input decoding

A verified library for the decoding and bookkeeping behind PressNots, a
Windows tool that observes mouse buttons and raw HID reports.

- `src/` — the library, verified with Verus:
  - `mouse`, `keyboard`, `hid`: decoding of low-level hook messages and of
    Raw Input mouse, keyboard and HID payloads, and vendor-defined HID buttons;
  - `raw_input`: sorting Raw Input messages by device type, the usage classes
    to register for, device labels, and the edge filter for named HID buttons;
  - `state`, `ui`: what the status window shows, how input events and the
    rename, reset and undo of device names change it, and the texts and
    geometry it uses;
  - `aliases`: device aliases and their JSON file format (through `serde_json`);
  - `text`, `bytes`, `keyed`: string, byte and map helpers;
  - `laws`: properties that hold across calls.
- `app/` — the Windows program: hooks, Raw Input registration, the window,
  file access.
- `tests/` — tests of the library.
