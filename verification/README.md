# Artificial Will — verified game rules

A top-down action game about a robot named Will, built as WebAssembly
extensions of a native engine. This crate holds the game's rules as a
verified library; `app/` is the thin layer that connects them to the engine.

## Layout

- `src/messages.rs`, `src/wire.rs` — the game's message formats and their
  little-endian codec, with round-trip laws.
- `src/menu/` — menu navigation, display preferences, resolution options,
  button layout, and the menu runtime that turns input into engine effects.
- `src/will/` — the character: held keys, animation state, combat and
  progression, the HUD, the controller that reacts to input, messages and
  frames, and the timed marker of a confirmed hit (which the controller does
  not use: a hit shows as the target's hurt animation).
- `src/levels/` — level content, the boxes of level one and the slimes of
  level two.
- `src/targeting.rs` — which of the measured targets a swing hits.
- `src/dist.rs`, `src/paths.rs` — which extension artifacts a distribution
  ships, read from the JSON `cargo metadata` prints (parsed by `serde_json`
  behind one trusted wrapper), and where the game looks for them.
- `src/float_bits.rs`, `src/text.rs` — single-precision values carried as bit
  patterns, and the texts the game builds and compares.

Single-precision arithmetic (distances, timers, knockback, pointer scaling)
stays in `app/`, which measures each frame and hands the library plain
values; the library decides what they mean.
