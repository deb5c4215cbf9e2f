# display_manager

A Windows display manager: it lists the monitors of a system, changes their
mode, orientation, position, scale and primary display, connects and
disconnects them with a layout that can be confirmed or rolled back, and keeps
per-user display profiles that are applied at login.

The decisions are a library verified with Verus; the program around it talks
to Windows.

## Layout

- `src/` — the verified library.
  - `text.rs`: character-level helpers (decimal rendering and parsing, search,
    replacement) with their specifications.
  - `types.rs`: display identities, modes, orientations, devices, results and
    errors; UTF-16 name decoding.
  - `topology.rs`: the display topology as plain values and what each
    operation makes of it (primary, orientation, position, enabling and
    disabling a monitor), the layout kept for rollback, and the messages that
    report the outcomes.
  - `enumeration.rs`: building the list of displays from a scan of the system,
    the sorted mode lists, and the known monitors that are remembered.
  - `settings.rs`: choosing the display setting of a mode request, the
    meaning of the system's result codes, the DPI values and registry key of a
    scale, and the mode switches that refresh a display.
  - `profiles.rs`: profile keys, the remapping of a saved profile onto the
    displays connected now, and the start-at-login setting.
  - `session.rs`: applying, saving and deleting user profiles.
  - `backend.rs`: the backend interface and a backend that only reports.
  - `laws.rs`: properties that relate several operations, proved.
- `tests/` — tests of the library on concrete values.
- `app/` — the program: Win32 and registry calls, files, and a command loop
  that answers one JSON request per line; `--apply-profile` applies the
  signed-in user's profile and exits.
