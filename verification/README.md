# watchface_rs

Reads Mi Band watchface files (`.bin`): the parameter tree that describes the
face, the images it draws from, and a preview of the face for given values
(time, date, steps, weather, ...).

The library under `src/` is verified with Verus: every public function states
in its contract what it returns for each input, and the parsers and the
preview are proved against mathematical specifications.

- `bytes`, `varint`, `params`: the byte-level format, the variable-width
  numbers and the parameter tree.
- `image`: the image decoder (palette, 16-, 24- and 32-bit pixel formats).
- `common`, `elements`, `miband`, `transform`: the description of a face and
  how the parameter tree fills it.
- `parser`: the whole file.
- `rounding`: single-precision rounding of integers and fractions, stated and
  computed over the integers, as the preview places and counts with it.
- `preview`, `miband_preview`: where each image of the preview goes.

`app/` is the command-line program: it reads a file, writes the description
as JSON, the images as PNG files and the preview as `preview.png`, drawing
the clock hands of an analog dial, whose geometry is in floating point.
