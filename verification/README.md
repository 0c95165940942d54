# gpu_util

Cross-platform GPU utilities on wgpu, with the computing core verified in
Verus.

- `src/glyph.rs`: the 3×5 bitmap font. `bitmap` packs a drawn glyph into a
  `u32` (row `r`, column `c` in bit `3r + c`); `build_glyph_table` builds the
  128-entry table indexed by ASCII code. The font itself is stated as a spec
  function, and the laws of the layout are proved there.
- `src/text.rs`: the text overlay's bookkeeping (`TextContent`): ASCII text
  becomes glyph codes, anything else becomes `'?'`, the text is cut at the
  buffer size and padded with zeros; plus the glyph buffer's bytes.
- `src/upload.rs`: words laid out as buffer bytes, through bytemuck.
- `src/radix_sort.rs`: the radix sorter's parameters; the sorting passes are
  not written yet.
- `app/`: the wgpu side (pipelines, buffers, render pass, shader source),
  which only talks to the device, and the `RadixSort::sort` entry point,
  which panics until the sorting passes exist.
