# rusty-psn

A window that looks up the updates of PlayStation titles by their serials and downloads them.

- `src/` is the library, verified with Verus: the state of the application, what every click
  and every poll does to it, which downloads are started, what becomes of them, every message,
  and every text that is put together from data. `src/laws.rs` states what holds across all of it.
- `app/` draws the window and its fixed labels with egui, runs lookups and transfers on a tokio runtime, and stores
  the settings. Where the updates come from is its `UpdateSource`.
- `tests/` runs the library, and draws its toasts without a screen.

Sizes are written by `bytesize` and toasts are stacked by `egui-notify`; what the library relies
on of either is stated beside the calls, in `src/text.rs` and `src/toast.rs`. `src/paths.rs`
does the same for the paths of the standard library.
