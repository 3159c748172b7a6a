# simple-render

A small retained-mode UI toolkit for Wayland layer-shell surfaces.

`src/` is the verified library. Its modules and what their contracts pin down:

- `geometry`, `layout`, `flow`: rectangles, clip regions, lengths and the flow
  layout that measures boxes and places children along a row or column;
  fill weights share the free space exactly and flow children do not overlap.
- `shapes`, `paint`, `canvas`, `image`, `viewport`: rounded-rectangle coverage,
  colours and gradients, the BGRA canvas with its damage tracking, image
  placement and sampling, and the mapping of the world onto a scrolled canvas.
- `input`, `input_state`: keys from keysyms; the keyboard's surface,
  modifiers and frame events after each keyboard event; the pointer state;
  and which widget is hovered, pressed, clicked and focused.
- `animation`, `damage`, `surface`, `options`, `api`, `style`, `text_runs`,
  `text_layout`: surface animations and placement, buffer reuse and
  buffer-age repaint, layer options, borders, emoji runs of a text and the
  integer side of text alignment.

`app/` holds what Verus does not take: floating-point opacity, scales and
easing curves, text shaping through cosmic-text, the element tree with its
closures, the widgets, and the Wayland runtime built on smithay-client-toolkit.
It hands the library plain values and acts on what it returns.

`tests/` exercises the library on concrete values.
