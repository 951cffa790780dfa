# germterm

A terminal graphics library: buffers of styled cells, alpha blending of
colors, drawing primitives (lines, text, styles), layouts and widgets (spans,
lines, bordered blocks with titles), and coordinate spaces finer than the
terminal grid (twoxel, octad, blocktad).

The library under `src/` is written in Verus and verified: its functions
carry contracts, and the methods of its trait impls are held to the
contracts of their traits.

- `color`: packed RGBA colors, the fixed-point lookup functions and
  premultiplied source-over blending.
- `style`, `cell`: the style of a cell and the cell itself.
- `coord_space`: positions and sizes in the coordinate spaces and the
  conversions between them.
- `base::buffer`: the `Buffer` and `Drawer` interfaces and the buffers
  (flat, blended, layered, paired, classic diffed), comparison of buffers
  and buffer layouts.
- `base::compositor`: how one cell is drawn over another.
- `base::draw`: positions, sizes and rectangles of the grid, and the drawing
  primitives.
- `base::widget`: frame contexts, widgets, spans, lines and blocks.
- `draw`: sub-cell drawing of octads (braille dots), blocktads and twoxels
  (half blocks) into a buffer.

`app/` holds what is outside the verified library: colors given as floating
point numbers and gradients, and the terminal itself (set-up, background
color detection, writing the cells buffers hand out, the frame loop).
