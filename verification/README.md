# rsact_ui

The layout core of a retained-mode UI library for small displays, written in
Verus: the layout engine, its geometry, and the bookkeeping that decides what
to draw again after a relayout. Every function in `src/` carries a contract
that Verus proves.

## Layout

- `src/geometry.rs`: points, rectangles, paddings and corner radii.
- `src/layout/`
  - `axis.rs`: main and cross axes, and values read along them.
  - `size.rs`: sizes, lengths (`Shrink`, fluid `Div`, `Fixed`) and unit
    vectors.
  - `limits.rs`: how a length resolves within minimum and maximum limits.
  - `tree.rs`: the element tree the layout walks (`LayoutArena`, which
    refuses children that would make a cycle), and its effective children
    (transparent nodes flattened out).
  - `model.rs`: laying out a tree (`model_layout`) into a `LayoutModel`,
    with `laid_out_in` saying node by node what the layout is, and walking a
    model with absolute positions (and finding the node under a point).
  - `flex.rs`: flex layout, lines and wrapping (`model_flex`).
  - `damage.rs`: the rectangles a relayout damaged and the nodes to draw
    again.
  - `incremental.rs`: relayout after a change, from a previous layout and
    the dirty nodes; its result is the full layout of the changed tree.
  - `rect_ext.rs`: centring and anchored resizing, done by
    `embedded-graphics`.
- `src/render/`: drawing styles, paths and primitive shapes (lines,
  polygons, circles, arcs, ellipses, sectors).
- `src/page/`: what a page does with its layout after a change (a full or
  an incremental relayout, and what to draw again), where a pointer event
  goes and which widgets learn that they are hovered or pressed
  (`pointer.rs`), and page identities.
- `src/style/`, `src/value.rs`, `src/utils.rs`: styles and stylists, bounded
  values and integer helpers.
- `app/`: what works with floating point (anti-aliased rasterization) and
  the conversions to and from `embedded-graphics` types.
- `tests/`: the library's tests.
