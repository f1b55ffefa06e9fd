# window_switcher

An Alt-Tab style window switcher for Hyprland. The decisions it makes are
written in Verus and proved against their contracts; the GTK overlay, the
Wayland screencopy session and the `hyprctl` plumbing sit around them.

## Layout

- `src/` — the verified library.
  - `backend.rs`: the backend state (MRU order, focus sequence numbers,
    monitor names, preview states, snapshot emission and its dedupe).
  - `refresh.rs`: one refresh cycle as a step machine: it asks for monitor
    lists and thumbnail sends and hands back the snapshot to show.
  - `event_loop.rs`: the backend loop as a step function: change signals
    are debounced, the safety poll refreshes, thumbnail reports are recorded.
  - `ordering.rs`: the stable most-recently-used sort of the cards.
  - `navigation.rs`: grid columns, key handling and in-place card layout.
  - `presentation.rs`: status and card texts.
  - `frame.rs`: BGRA to RGBA conversion and thumbnail rendering (resize and
    PNG encoding are done by the `image` crate).
  - `capture.rs`: which output to capture, and the retry-once over a fresh
    connection.
  - `focus.rs`, `paths.rs`, `table.rs`, `text.rs`, `model.rs`,
    `clock.rs`, `config.rs`: the smaller pieces they rest on.
  - `laws.rs`: properties that span several operations, stated and proved.
- `tests/` — tests run against the compiled library.
- `app/` — the program: GTK4 overlay, layer shell, Hyprland event socket,
  screencopy and worker threads, driving the library.
