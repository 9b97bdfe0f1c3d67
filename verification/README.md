# renderer

A verified library (Verus) for the CPU side of a small GPU image viewer, with
the viewer itself as an ordinary Rust program around it.

- `src/color.rs`: `RGB` and its packing in `0x00RRGGBB` words.
- `src/frame.rs`: `Image` (width, height, row-major pixels): creation, `fill`,
  and `write_out` into an RGBA byte buffer.
- `src/animation.rs`: the color animation of the render loop and the in-place
  publication of each frame through a `triple_buffer` input.
- `src/readback.rs`: the layout of a row-padded GPU readback buffer and the
  RGBA image (of the `image` crate) recovered from it.
- `src/presentation.rs`: the viewer's decisions: window events, surface size,
  preferred surface format, per-frame action, compute dispatch size.
- `app/`: the winit/wgpu viewer (window, GPU, file dialog, PNG file), the
  floating-point viewport and sRGB curve, and the timed render loop.

The viewer embeds two WGSL shaders, `compute.wgsl` and `blit.wgsl`, which it
expects next to `app/main.rs`.
