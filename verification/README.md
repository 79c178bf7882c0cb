# Banshee

The verified core of a terminal for Windows, written in Rust and verified with
Verus, and the program around it.

| Directory | Content |
|---|---|
| `src/config` | Configuration: values, validation, diagnostics, reloading with last-good semantics |
| `src/layout` | Profiles, how they merge and launch, and session bookkeeping |
| `src/term` | Terminal state around the vt engine: snapshots, selections, the clipboard policy, OSC 7 and OSC 52 |
| `src/input` | Keyboard (classic and Kitty), mouse and paste encodings |
| `src/shell` | Composition input, clipboard text, window messages, self-tests, cell paint |
| `src/text.rs`, `src/sorted.rs` | Text helpers and a map in key order |
| `tests` | Tests of the compiled library |
| `app` | The program: window, engine bindings, pseudo console, configuration file |

The library performs no I/O. What it wants done it returns as a value, such as
`VtCommand` or `WatchAction`; what came of it is handed back as plain values.
