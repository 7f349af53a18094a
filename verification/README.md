# pongi

The verified core of a small pixel-art Pong game and of its asset pipeline.

`src/` is checked by Verus:

- `image`, `atlas`, `font` — RGBA images, packing images into square atlas
  textures with `rect_packer`'s skyline packer, and preparing bitmap font
  glyphs (glyph pixels, one pixel borders, padding) for the atlas.
- `aseprite`, `sprite_sheet` — reading the start of an Aseprite file
  (header, frame, palette and layer chunks) from bytes, and finding frame
  indices and pivot points in exported sprite sheets.
- `input`, `gui`, `menu`, `game` — button state and events, the
  immediate-mode GUI, the menus and the per-frame game decisions.
- `audio`, `draw`, `timer`, `math`, `text` — sound bookkeeping, mesh index
  patterns, a stopwatch and small helpers.
- `hot_reload` — the file names of the game library and of the numbered
  copies it is reloaded from.

`app/` is the asset packer program around it (file and process I/O,
rasterising fonts with `rusttype`, loading and saving PNG images, writing the
atlas metadata) and the floating point part of the game, which Verus does not
reason about: geometry and collisions, the camera, building the draw meshes
and commands, the scenes, which call the library for their decisions, and loading the
game library with `libloading`.

The program in `app/main.rs` is the asset packer. The game modules of `app/`
(frame, scenes, drawing, widgets, library loader, audio output) are what a
game runtime calls each frame; the runtime itself, with its window, input
events, renderer and audio device, is not part of this crate, so `main` does
not reach them.
