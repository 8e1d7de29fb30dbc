# perry_ui

The platform-independent core of the perry/ui `WheelPicker` — a drum-roll
selector for long sequential ranges — and of the Win32 stack layout engine,
written in Verus and proved against its contracts.

## Layout

- `src/wheel.rs` — the wheel shared by the custom-drawn backends (macOS,
  GTK4, Windows): rows, selection, the baseline last reported to the app,
  whole-notch scroll steps, settling, clicks, arrow keys, and the rows a
  wheel draws.
- `src/wheel_laws.rs` — what the wheel promises across calls: `-1` on an
  empty wheel, a programmatic selection or populating the wheel never reads
  as a user choice, a settled choice is reported once, scroll travel is
  never lost, one notch is one row.
- `src/ios.rs`, `src/android.rs`, `src/watchos.rs`, `src/macos.rs` — the
  state kept by the native-widget backends.
- `src/style.rs` — which app colour and size apply to a row.
- `src/text.rs` — decoding of runtime string records.
- `src/layout.rs`, `src/stack.rs`, `src/stack_laws.rs` — container layout,
  the intrinsic-size table, stack placement and measurement, and what
  placement promises (consecutive children, equal shares, filling the room).
- `app/` — the per-thread widget tables, the floating-point parts (point
  measured scroll travel, colour fades, DPI scaling) and the Win32 layout
  driver, reaching the toolkit through small traits.
- `tests/` — scenarios for every module.
