# glow_painter

Texture bookkeeping for an egui painter that draws through OpenGL (glow),
verified with Verus.

- `src/textures.rs` — `TextureStore<T>`: the egui font texture and the table of
  user textures (allocation, registration, new pixels, freeing, pending uploads,
  lookup of the texture to bind), with its abstract view and invariant.
- `src/pixels.rs` — the bytes that are uploaded: RGBA pixels laid out in order,
  the font texture's white-with-alpha pixels (through egui's `Color32`), and the
  shape check of an upload.
- `src/scissor.rs` — the OpenGL scissor box of a rounded clip rectangle.
- `src/laws.rs` — properties that span several operations, proved over the view.
- `app/` — the `Painter` itself: every GL call, the shaders, and the floating
  point clip-rectangle arithmetic, on top of the library.
