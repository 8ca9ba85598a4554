# Zord

Zord records meetings on this machine, transcribes them locally, tells the speakers
apart, and keeps a living overview across meetings. This project is its desktop
application.

- `src/` is the library: the rules, states, texts and plans of the application, with
  contracts that Verus proves. It holds no thread, no file and no window.
- `tests/` runs the library on concrete values.
- `app/` is the program around it: the window, the worker threads, files, audio
  and the network. It performs the steps that the library returns and hands back
  what came of them. What is computed in floating point stays there too: loudness,
  the brightness of a color, how well a voice matches.

What the library believes of other crates without proof stands in `src/text.rs`
(lower-case text, growing strings), `src/dates.rs` (local dates) and
`src/diagnostics.rs` (JSON).
