# vexell

The decision logic of the Vexell image converter, verified with Verus.

- `src/text.rs`: whitespace trimming, ASCII case folding, and the number
  syntax that `u32` and `f64` parsing accept.
- `src/paths.rs`: paths as components; extensions, the batch base folder,
  and where each output file goes (with the tree-preservation laws).
- `src/format.rs`: output formats and the per-file conversion plan.
- `src/pixels.rs`: undoing premultiplied alpha, GIF's hard alpha, and ICO's
  square padding.
- `src/targeting.rs`: the size targeter's quality bisection.
- `src/settings.rs`, `src/batch.rs`: arguments, project defaults and batch planning.
- `src/wizard.rs`, `src/shell.rs`: the interactive wizard and the built-in
  terminal as state machines.
- `app/`: the program around it: argument parsing, the project file,
  rendering, decoding and encoding, file I/O, threads and the terminal UI.
