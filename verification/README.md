# capto

The verified core of Capto, a local screen recorder and screenshot tool:
the rules behind its recording session, capture geometry, FFmpeg command
lines, control plane and CLI client, settings, hotkeys and overlays, with
contracts that Verus proves (clock readings and channel handles are only
carried through).

Layout:

- `src/` — the library, checked by Verus. Calls into `chrono`, `uuid`,
  `dirs`, `image` and a few `std` functions stand behind small trusted
  wrappers whose contracts say what the outside code does.
- `tests/` — ordinary Rust tests of the library's behaviour on concrete
  values.
- `app/` — the I/O around it: JSON forms of the library's values (serde),
  the settings, lock and crash-report files, screenshot files, the output
  and sidecar folders, launching the desktop app, the process-wide
  breadcrumb trail and metrics registry, and the shared webcam frame slot.
