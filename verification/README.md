# thermal_core

Direct ESC/POS printing to 58/80 mm thermal printers on Windows, over the
USB Printer Class interface or a serial (COM / Bluetooth SPP) port, with the
protocol logic verified in Verus.

## Layout

- `src/` — the verified library.
  - `text.rs`: character-level searching (`find`, `rfind`), ASCII classes and
    case mapping over the characters of a string.
  - `codepage.rs`: code page 860 encoding, text print jobs, text clean-up.
  - `raster.rs`: the grayscale `Raster`, its `GS v 0` encoding (with the law
    that a bit is set exactly for a pixel darker than 180), and scaling to the
    printable width through the `image` crate's Lanczos3 resize.
  - `device.rs`: device records, `COMn` ports from friendly names, USB
    vendor/product ids, NUL-terminated wide strings.
  - `discovery.rs`: classification of enumerated interfaces and the list of
    printers among them.
  - `payload.rs`, `probe.rs`, `tool.rs`: the fixed diagnostic pages, the
    character-set sample, the width ruler and image pages.
  - `number.rs`: decimal formatting and `usize` parsing (with the round-trip law).
  - `cli.rs`: command-line options and device selection.
  - `profile.rs`: printer profiles, matching a profile to a device, creating one.
  - `backend.rs`, `document.rs`: the desktop front end's requests and documents.
  - `preview.rs`: document previews, with the first page as a PNG (through the
    `image` crate) in standard base64 (through the `base64` crate).
- `tests/` — tests of the library on concrete values.
- `app/` — the Windows program: SetupAPI enumeration, writing to the device or
  port, file and PDF input, JSON profiles, the command-line flow (`main.rs`),
  the desktop window (`gui.rs`, `viewer.rs`) and the desktop front end's
  commands (`backend.rs`).
