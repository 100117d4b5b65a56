# spindle_extensions

The logic of the spindle extensions for `AeroSpace`, `SketchyBar`, the
workspace indicator and the clock, verified with Verus.

- `src/` is the verified library:
  - `aerospace` builds socket requests, reads responses, and turns command
    output into workspace, mode and layout snapshots;
  - `workspace_indicator` projects snapshots into `SketchyBar` message
    requests (labels, colors, cache keys) and debounces workspace renders;
  - `clock` formats the clock label of a local date and time;
  - `sketchybar` frames messages in the CLI wire format, resolves the
    write-cache directory and paths, tracks the endpoint lifecycle, and
    drives a cached send as a state machine (`sketchybar::send`);
  - `surface` checks the host surface an action needs;
  - `text` holds the string functions the others share.
- `tests/` runs the library on concrete values.
- `app/` is the program around it: command lines, the spindle host, the
  `AeroSpace` socket, the cache files and the Mach bridge.
