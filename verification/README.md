# flashkraft

The decision-making core of an OS-image writer, with every function proved
against its contract by Verus.

## Layout

- `src/` — the verified library.
  - `text.rs`: character-level text helpers (`trim`, `lines`, `find`,
    integer parsing, decimal printing) stated over `Seq<char>`.
  - `flash_writer.rs`: the helper's line protocol (stages, sizes, progress,
    log and error lines) and `dd` progress parsing, with read-back laws.
  - `flash_helper.rs`: input validation, mounted-partition lookup, write and
    read-back bookkeeping, SHA-256 verification over the `sha2` crate.
  - `flash_runner.rs`: splitting the helper's output into lines and turning
    each line into an effect on the front-end.
  - `drive_detection/`: Linux sysfs, macOS `diskutil` plists and Windows
    `wmic` CSV parsing; `block_devices.rs`: the desktop drive list built from
    `/sys/block` and the mounted disks.
  - `file_explorer.rs`, `keys.rs`: a keyboard-driven file browser.
  - `tui.rs`, `screens.rs`: the terminal front-end as a state machine, and
    what each screen shows.
  - `gui.rs`: the desktop front-end's state and update function.
  - `hotplug.rs`, `usb_contents.rs`, `status_views.rs`, `theme.rs`,
    `dd_script.rs`: the smaller pieces.
- `tests/` — tests run against the compiled library.
- `app/` — the terminal program: raw mode, drawing, reading directories and
  devices, the privileged flash helper. It performs what the library asks
  for and hands the results back.
