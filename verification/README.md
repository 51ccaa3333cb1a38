# funpedals

The control logic of a guitar multi-effects processor, verified with Verus.

- `src/catalog.rs`: the effect kinds, the keys that presets use for them, and
  each kind's parameter names and units.
- `src/chain.rs`: an effect chain and the numbering of its parameters across
  its units (which unit and local index a chain-wide index addresses).
- `src/preset.rs`: presets: building a chain plan from a preset, storing a
  preset in a list, and recording the current state of a chain as a preset.
- `src/menu.rs`: the commands of the terminal menu.
- `src/screen.rs`: the touchscreen layout and what taps and drags do.

`app/` is the program around the library: the audio units (FunDSP), the
audio devices (ALSA, CoreAudio), the display (SDL2) and the preset file
(TOML).
