# protobuf output, verified

Writes the values that protobuf messages are made of: to a writer, behind a buffer; to the end of
a vector; or into a slice. The contracts are proved with Verus.

- `src/` is the library. A contract says which pieces of bytes an operation writes
  (`varint`, `zigzag`, `signed`, `endian`, `wire_format`, `unknown`), and, over the model in
  `output`, where they are afterwards and what happens when the target refuses one. `laws` and
  `reading` state what holds across operations: that every target gets the same bytes, when a
  write can fail, and that what was written is read back.
- `app/` joins it to `std::io`, flushes a stream when it goes out of scope, and has the
  floating-point fields.
- `tests/` runs the library.
