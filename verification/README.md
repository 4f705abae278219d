# wiot

The decision logic of a web image optimizer, verified with Verus, and the
command-line tool around it.

- `src/` is the verified library: option models and their validation, the
  coordinate, colour and format parsers, the crop-window geometry, encoder
  parameters and the encoder registry, the choice of adapter for a URI, the
  automatic-format selection and checksum naming, and the decisions of each
  pipeline stage. Fractional option values are exact decimals with six places.
- `app/` is the `wiot-cli` program: argument parsing, file and HTTP I/O, pixel
  operations and codecs, driven by the library's decisions.
- `tests/` runs the library on concrete values.
