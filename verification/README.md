# chartistry

The logic of a chart library, verified with Verus, and the floating point
parts around it.

- `src/` (verified):
  - `orientation`: chart axis orientation.
  - `ticks`: integer tick generation aligned to nice steps (1, 2, 5 × 10ⁿ),
    the nice step search, decimal formatting of integer ticks, generated
    tick sets and their format states.
  - `series::interpolation`: line interpolation kinds, their names, and the
    plan of SVG path commands for a line with missing points, and the
    moves of each step kind with their SVG commands.
  - `layout`: which axis each chart edge shows, which projection tick labels
    use, area fill edges, and right-aligned tick label text.
  - `layout::edges` also gives the text anchor of tick labels on each edge
    and the Y axis a series' values count towards.
  - `overlay::tooltip`, `overlay::rows`, `inner::guide_line`: tooltip and
    guide line options and their names, when the tooltip shows, which Y
    formatter it uses, and the rows it lists (missing values skipped, stably
    sorted by name or value; a NaN value counts as missing), and the "-"
    shown for a missing value.
  - `series::line`: the stroke of a line (its gradient overrides its colour).
- `app/` (plain Rust): span measuring for tick counts, SVG path text,
  Steffen's monotone tangents, the data table and its nearest-row lookup,
  the sizes of the chart's edges and inner area, data/SVG projections and
  tick positions, all of which compute with floating point values.
