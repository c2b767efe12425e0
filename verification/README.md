# hcnetsdk_rust_demo

The verified core of a small HCNetSDK (Hikvision network SDK) client:

- `src/mainwindow/devicetree` — device and channel records, the text form
  of `device_tree.txt` (reading, writing, and the proof that what is
  written reads back), and the flat tree shown in the UI.
- `src/mainwindow/logalarm` — the capped log and alarm tables.
- `src/mainwindow/window` — what a tree row selects and what the window's
  actions (login, logout, delete, add device, preview) do to the devices
  and the log.
- `src/realplay` — the preview sessions: which stream a request opens,
  stops or drops, and which handles must be released.
- `src/sdk` — SDK codes, event decoding, login buffers, version text and
  the library search order.
- `src/text.rs` — trimming, line splitting and decimal numbers, with the
  specifications that the std functions they stand for follow.

`app/` is the program around it: the C declarations of the SDK, loading the
shared libraries, the callbacks and their event queue, file I/O and a
console `main` (`--preview <row> [stream] [protocol]`, `--logout <row>`,
`--delete <row>`, `--info`).
