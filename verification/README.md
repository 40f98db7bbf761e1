# hash_color_lib

Hash-based terminal colorization: the same input always gets the same color.

`src/` is the verified library:

- `hash` — seeded FNV-1a with a SplitMix64 finalizer, with proofs that the
  finalizer is reversible, that distinct seeds never collide on the same input
  and that changing one byte always changes the hash.
- `color` — colors, layers and their ANSI escape sequences (decimal rendering
  included), and the xterm 6×6×6 cube.
- `colorize` — turning a hash into a 16-color, 256-color or gray true color
  that avoids excluded hues, and wrapping text in escapes.
- `intervals` — the arcs of the hue wheel left after exclusions (sort, merge,
  complement) on order-preserving integer keys.
- `detect` — color-support levels, their names, and the detection rules.
- `exclusion` — color-blindness presets and the `START:END` arc syntax.
- `input` — which bytes are hashed (whitespace-sensitive or trimmed).
- `config` — command-line choices and their mapping onto library values.
- `text` — decimal rendering, Unicode white-space trimming and substring search.

`app/` is the `hash-color` program: argument parsing, reading stdin and the
environment, terminfo, and the floating-point parts (HSL conversion, hue
degrees, saturation and lightness).
