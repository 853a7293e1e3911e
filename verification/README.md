# ddc_brightness

The logic of a small GTK4/libadwaita window that sets the brightness of
external monitors over DDC/CI through `ddcutil`, written in Verus.

- `src/` is the verified library:
  - `text.rs`: whitespace, trimming, search, splitting and decimal numbers
    over the characters of a string;
  - `parser.rs`: reading `ddcutil detect --brief` and `ddcutil getvcp 10`;
  - `brightness.rs`, `detect.rs`: the arguments of each `ddcutil` command and
    what its exit status and output mean;
  - `controller.rs`: the decisions of the window (selection, the pending
    debounced write, the loading state, the guards against signals that
    widgets echo);
  - `roundtrip.rs`: reports printed the way `ddcutil` prints them read back
    as what they were printed from;
  - `monitor.rs`: the monitor record.
- `app/` starts the processes, builds the widgets and runs the threads and
  timers.
- `tests/` runs the library on concrete reports.
