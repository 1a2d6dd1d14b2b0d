# drmcru

A library for making custom resolutions on Linux DRM/KMS monitors: it
parses a monitor's EDID, edits its detailed, standard and CTA-861 timings in
a working copy, checks the result, and plans how to install it as a kernel
EDID override (firmware file, mkinitcpio, Limine) and which Hyprland monitor
rule to use. Every function of the library is verified with Verus against a
contract written over mathematical models of the bytes and text involved.

## Layout

- `src/` — the verified library.
  - `edid.rs`: parsing, encoding and patching EDID bytes; `models.rs`: the
    parsed data; `workspace.rs`: the working copy and its edit history;
    `validation.rs`, `timings.rs`, `fixed.rs`: timing checks and arithmetic.
  - `browser.rs`, `editor.rs`, `detailed_editor.rs`, `clipboard.rs`,
    `system_action.rs`, `report.rs`: what the interactive view decides and
    shows, as state-to-state and state-to-text functions.
  - `install.rs`, `export.rs`, `doctor.rs`, `discovery.rs`,
    `hyprland_config.rs`, `hyprland.rs`, `cli.rs`, `demo.rs`, `text.rs`:
    install scripts, exports, diagnostics, monitor discovery, Hyprland config
    reading, command-line parsing, a synthetic EDID, and text helpers.
- `tests/` — tests of the library on concrete values.
- `app/` — the program around it: the terminal interface, file and sysfs
  access, `hyprctl`, `pkexec`, and the refresh-rate arithmetic, which is
  floating point.
