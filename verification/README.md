# RSML

RSML is a simple 2d and 3d graphics library: windows drawn with wgpu, shapes, textures,
text and a camera. The parts that decide things are written in Verus and proved:

- `src/font_atlas.rs`: the grey image that glyph bitmaps are packed into, line by line,
  each with a one pixel border; what was packed stays where it was put.
- `src/texture_atlas.rs`: the characters of one font size and where they lie in the
  image; the image grows when a glyph does not fit, and no two characters overlap.
- `src/font.rs`: one atlas per font size, and the rectangles of a laid out text: every
  character is packed, then each glyph's character is looked up (and tried once more where
  it is not held).
- `src/font_face.rs`: a font read from the bytes of a font file by fontdue, with its atlases.
- `src/image_data.rs`: image files decoded to RGBA samples by `image`.
- `src/timing.rs`, `src/frame_monitor.rs`: frame timings averaged over the last frames.
- `src/frame_stat_display.rs`: when the statistics overlay is written anew and what it says.
- `src/window.rs`: the window manager and how it hands out the events of the event loop,
  and what drawing does with an acquired surface.
- `src/camera.rs`: which key moves the camera which way.
- `src/gray_image.rs`, `src/color.rs`: the calls into `image` and `rand`, with the
  contracts that the proofs rely on.

`app/` is the program around it: the renderer, GPU buffers and shaders, fontdue's
rasterizer and layout, the winit event loop, and an example window with a cube.
